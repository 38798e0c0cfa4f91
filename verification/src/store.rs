//! The store: the load step of the atomic whole-collection store, the
//! backend-selecting facade, explicit record removal, and a model of the
//! crash-safe save protocol.
//!
//! All file handling stays with the caller: it reads the canonical
//! document and hands the text in, and it writes the documents handed
//! back — always to the temporary location first, then atomically renamed
//! over the canonical one.

use vstd::prelude::*;

use crate::codec_laws::lemma_save_load_round_trip;
use crate::parse::{parse_collection, spec_parse_collection};
use crate::pasta::{ids_unique, views_of, Pasta, PastaView};
use crate::ser::{ser_collection, serialize_collection};

verus! {

/// The well-known storage location of the record collection.
pub fn database_path() -> (r: &'static str)
    ensures
        r@ == "pasta_data/database.json"@,
{
    "pasta_data/database.json"
}

/// The companion temporary location used during a save: the full document
/// is written here first, then atomically renamed over the canonical
/// location, so a crash mid-write never leaves the canonical file
/// truncated.
pub fn temp_database_path() -> (r: &'static str)
    ensures
        r@ == "pasta_data/database..tmp"@,
{
    "pasta_data/database..tmp"
}

/// What a load of the storage location found.
#[derive(Debug, PartialEq)]
pub enum LoadOutcome {
    /// The document parsed; `migrated` says whether any record carried the
    /// legacy shape and was backfilled — the caller must then persist the
    /// collection again so the migration is written out once.
    Loaded { pastas: Vec<Pasta>, migrated: bool },
    /// The storage location did not exist; the caller must create it by
    /// atomically writing `document` (an empty collection), after which
    /// the store holds exactly `pastas`.
    Created { pastas: Vec<Pasta>, document: String },
    /// The existing data failed to parse. The store is the single source
    /// of truth, so this is fatal: the caller must stop rather than go on
    /// with a partial or assumed-empty collection.
    Corrupt,
}

/// The load step of the atomic store: `file` is the content of the
/// canonical document, or `None` when the storage location does not
/// exist.
pub fn load(file: Option<&str>) -> (r: LoadOutcome)
    ensures
        match r {
            LoadOutcome::Loaded { pastas, migrated } => file matches Some(doc)
                && spec_parse_collection(doc@) == Some((views_of(pastas@), migrated)),
            LoadOutcome::Created { pastas, document } => file is None && pastas@.len() == 0
                && document@ == ser_collection(Seq::empty()),
            LoadOutcome::Corrupt => file matches Some(doc) && spec_parse_collection(doc@) is None,
        },
{
    match file {
        None => {
            let pastas: Vec<Pasta> = Vec::new();
            let document = serialize_collection(&pastas);
            proof {
                assert(views_of(pastas@) =~= Seq::<PastaView>::empty());
            }
            LoadOutcome::Created { pastas, document }
        },
        Some(doc) => match parse_collection(doc) {
            None => LoadOutcome::Corrupt,
            Some((pastas, migrated)) => LoadOutcome::Loaded { pastas, migrated },
        },
    }
}

/// Which persistence backend is active. Exactly one is selected from
/// configuration at startup and never changes at runtime.
#[derive(Debug, Clone, Copy, PartialEq, Eq)]
pub enum Backend {
    /// The whole-collection document store: every mutating call persists
    /// the entire collection.
    Document,
    /// The record-oriented relational store: every mutating call hands
    /// the single affected record over.
    Relational,
}

/// What the caller must carry out to persist a facade call.
#[derive(Debug, Clone, PartialEq)]
pub enum PersistAction {
    /// Atomically replace the canonical document with this one.
    WriteDocument(String),
    /// Hand this new record to the relational backend.
    InsertRecord(Pasta),
    /// Hand this changed record to the relational backend.
    UpdateRecord(Pasta),
    /// Have the relational backend delete the record with this id.
    DeleteRecord(u64),
}

/// What a read of the whole collection requires of the caller.
#[derive(Debug, Clone, Copy, PartialEq, Eq)]
pub enum ReadRequest {
    /// Read the canonical document and hand its content to `load`.
    LoadDocument,
    /// Query the relational backend for all records.
    QueryRelational,
}

/// A facade call was made with the argument shape the active backend does
/// not expect: a programmer error, reported loudly and never a silent
/// no-op.
#[derive(Debug, Clone, Copy, PartialEq, Eq)]
pub enum ShapeError {
    MissingCollection,
    MissingRecord,
    MissingId,
}

/// The four-operation store facade: selected once at construction, it
/// hides the backend choice from callers, which pass the authoritative,
/// already-mutated collection (document backend) or the single affected
/// record (relational backend).
pub struct StoreFacade {
    pub backend: Backend,
}

impl StoreFacade {
    /// Selects the backend once, at startup.
    pub fn new(backend: Backend) -> (r: StoreFacade)
        ensures
            r.backend == backend,
    {
        StoreFacade { backend }
    }

    /// Reads the whole collection: says where the caller must take it
    /// from.
    pub fn read_all(&self) -> (r: ReadRequest)
        ensures
            match self.backend {
                Backend::Document => r == ReadRequest::LoadDocument,
                Backend::Relational => r == ReadRequest::QueryRelational,
            },
    {
        match self.backend {
            Backend::Document => ReadRequest::LoadDocument,
            Backend::Relational => ReadRequest::QueryRelational,
        }
    }

    /// Persists a newly created record.
    pub fn insert(&self, pastas: Option<&Vec<Pasta>>, pasta: Option<&Pasta>) -> (r: Result<
        PersistAction,
        ShapeError,
    >)
        ensures
            match self.backend {
                Backend::Document => match pastas {
                    Some(ps) => r matches Ok(PersistAction::WriteDocument(doc)) && doc@
                        == ser_collection(views_of(ps@)),
                    None => r == Err::<PersistAction, ShapeError>(ShapeError::MissingCollection),
                },
                Backend::Relational => match pasta {
                    Some(p) => r matches Ok(PersistAction::InsertRecord(q)) && q@ == p@,
                    None => r == Err::<PersistAction, ShapeError>(ShapeError::MissingRecord),
                },
            },
    {
        match self.backend {
            Backend::Document => match pastas {
                Some(ps) => Ok(PersistAction::WriteDocument(serialize_collection(ps))),
                None => Err(ShapeError::MissingCollection),
            },
            Backend::Relational => match pasta {
                Some(p) => Ok(PersistAction::InsertRecord(p.clone_record())),
                None => Err(ShapeError::MissingRecord),
            },
        }
    }

    /// Persists a change to an existing record.
    pub fn update(&self, pastas: Option<&Vec<Pasta>>, pasta: Option<&Pasta>) -> (r: Result<
        PersistAction,
        ShapeError,
    >)
        ensures
            match self.backend {
                Backend::Document => match pastas {
                    Some(ps) => r matches Ok(PersistAction::WriteDocument(doc)) && doc@
                        == ser_collection(views_of(ps@)),
                    None => r == Err::<PersistAction, ShapeError>(ShapeError::MissingCollection),
                },
                Backend::Relational => match pasta {
                    Some(p) => r matches Ok(PersistAction::UpdateRecord(q)) && q@ == p@,
                    None => r == Err::<PersistAction, ShapeError>(ShapeError::MissingRecord),
                },
            },
    {
        match self.backend {
            Backend::Document => match pastas {
                Some(ps) => Ok(PersistAction::WriteDocument(serialize_collection(ps))),
                None => Err(ShapeError::MissingCollection),
            },
            Backend::Relational => match pasta {
                Some(p) => Ok(PersistAction::UpdateRecord(p.clone_record())),
                None => Err(ShapeError::MissingRecord),
            },
        }
    }

    /// Persists a record's removal. The document backend takes the
    /// already-mutated collection; the relational backend takes the
    /// removed record's id.
    pub fn delete(&self, pastas: Option<&Vec<Pasta>>, id: Option<u64>) -> (r: Result<
        PersistAction,
        ShapeError,
    >)
        ensures
            match self.backend {
                Backend::Document => match pastas {
                    Some(ps) => r matches Ok(PersistAction::WriteDocument(doc)) && doc@
                        == ser_collection(views_of(ps@)),
                    None => r == Err::<PersistAction, ShapeError>(ShapeError::MissingCollection),
                },
                Backend::Relational => match id {
                    Some(i) => r == Ok::<PersistAction, ShapeError>(PersistAction::DeleteRecord(i)),
                    None => Err::<PersistAction, ShapeError>(ShapeError::MissingId) == r,
                },
            },
    {
        match self.backend {
            Backend::Document => match pastas {
                Some(ps) => Ok(PersistAction::WriteDocument(serialize_collection(ps))),
                None => Err(ShapeError::MissingCollection),
            },
            Backend::Relational => match id {
                Some(i) => Ok(PersistAction::DeleteRecord(i)),
                None => Err(ShapeError::MissingId),
            },
        }
    }
}

/// `i` is the position of the first record with this id.
pub open spec fn first_match_at(vs: Seq<PastaView>, id: u64, i: int) -> bool {
    &&& 0 <= i < vs.len()
    &&& vs[i].id == id
    &&& forall|j: int| 0 <= j < i ==> vs[j].id != id
}

/// What an explicit removal request decided.
#[derive(Debug, PartialEq)]
pub enum RemoveDecision {
    /// The record is protected (server-side encrypted or read-only):
    /// nothing was changed, the caller must ask for the password first.
    NeedsAuth,
    /// The record was removed from the collection; the caller persists
    /// the removal and reclaims the attachment, if any.
    Removed { record: Pasta },
    /// No record carries this id; nothing was changed.
    NotFound,
}

/// Explicit user deletion: removes the first record with the given id
/// from the collection, unless it is protected, in which case nothing
/// changes until the caller has authenticated.
pub fn remove_record(pastas: &mut Vec<Pasta>, id: u64) -> (r: RemoveDecision)
    ensures
        match r {
            RemoveDecision::NotFound => final(pastas)@ == old(pastas)@ && (forall|j: int|
                0 <= j < old(pastas)@.len() ==> views_of(old(pastas)@)[j].id != id),
            RemoveDecision::NeedsAuth => final(pastas)@ == old(pastas)@ && (exists|i: int|
                first_match_at(views_of(old(pastas)@), id, i) && (views_of(old(pastas)@)[i].encrypt_server
                    || views_of(old(pastas)@)[i].readonly)),
            RemoveDecision::Removed { record } => exists|i: int|
                {
                    &&& first_match_at(views_of(old(pastas)@), id, i)
                    &&& !(views_of(old(pastas)@)[i].encrypt_server || views_of(old(pastas)@)[i].readonly)
                    &&& record@ == views_of(old(pastas)@)[i]
                    &&& views_of(final(pastas)@) == views_of(old(pastas)@).remove(i)
                },
        },
{
    let ghost vs = views_of(pastas@);
    let mut i: usize = 0;
    while i < pastas.len()
        invariant
            i <= pastas@.len(),
            pastas@ == old(pastas)@,
            vs == views_of(pastas@),
            forall|j: int| 0 <= j < i ==> vs[j].id != id,
        decreases pastas@.len() - i,
    {
        if pastas[i].id == id {
            if pastas[i].encrypt_server || pastas[i].readonly {
                proof {
                    assert(first_match_at(vs, id, i as int));
                }
                return RemoveDecision::NeedsAuth;
            }
            let record = pastas.remove(i);
            proof {
                assert(first_match_at(vs, id, i as int));
                assert(views_of(pastas@) =~= vs.remove(i as int));
            }
            return RemoveDecision::Removed { record };
        }
        i = i + 1;
    }
    RemoveDecision::NotFound
}

/// The collection invariant survives an explicit removal: when no two
/// records share an id, neither do two of the records left after one is
/// taken out.
pub proof fn lemma_removal_preserves_unique_ids(vs: Seq<PastaView>, i: int)
    requires
        ids_unique(vs),
        0 <= i < vs.len(),
    ensures
        ids_unique(vs.remove(i)),
{
    let rv = vs.remove(i);
    assert forall|a: int, b: int| 0 <= a < b < rv.len() implies rv[a].id != rv[b].id by {
        let a0: int = if a < i { a } else { a + 1 };
        let b0: int = if b < i { b } else { b + 1 };
        assert(rv[a] == vs[a0]);
        assert(rv[b] == vs[b0]);
    }
}

/// A model of the storage directory during a save: what the canonical
/// location and the companion temporary location hold. The save protocol
/// is two steps — write the whole new document to the temporary location,
/// then rename it over the canonical one. The rename is atomic: the model
/// has no state in which the canonical location holds anything but a
/// complete document.
pub struct DiskModel {
    pub canonical: Option<String>,
    pub temp: Option<String>,
}

/// First save step: writing the temporary file touches only the
/// temporary location. A crash anywhere up to here leaves the canonical
/// document exactly as it was.
pub fn write_temp(disk: &mut DiskModel, document: String)
    ensures
        final(disk).canonical == old(disk).canonical,
        final(disk).temp == Some(document),
{
    disk.temp = Some(document);
}

/// Second save step: the atomic rename installs the temporary file as
/// the canonical one in a single step. Before it, loads see the old
/// document; after it, the new one; never a mixture.
pub fn commit_rename(disk: &mut DiskModel)
    requires
        old(disk).temp is Some,
    ensures
        final(disk).canonical == old(disk).temp,
        final(disk).temp is None,
{
    let mut moved: Option<String> = None;
    core::mem::swap(&mut disk.temp, &mut moved);
    disk.canonical = moved;
}

/// The whole save protocol on the storage model.
pub fn save(disk: &mut DiskModel, pastas: &Vec<Pasta>)
    ensures
        final(disk).canonical matches Some(doc) && doc@ == ser_collection(views_of(pastas@)),
        final(disk).temp is None,
{
    let document = serialize_collection(pastas);
    write_temp(disk, document);
    commit_rename(disk);
}

/// Crash safety of the save protocol: whatever document the canonical
/// location holds when the process is interrupted — the old one (crash
/// before the rename) or the new one (crash after) — a subsequent load
/// parses it back to the corresponding whole collection. A truncated or
/// mixed document is never observed, because the temporary write touches
/// only the temporary location and the rename is atomic.
pub proof fn lemma_interrupted_save_loads_old_or_new(
    ps_old: Seq<PastaView>,
    ps_new: Seq<PastaView>,
    observed: Seq<char>,
)
    requires
        observed == ser_collection(ps_old) || observed == ser_collection(ps_new),
    ensures
        spec_parse_collection(observed) == Some((ps_old, false)) || spec_parse_collection(observed)
            == Some((ps_new, false)),
{
    lemma_save_load_round_trip(ps_old);
    lemma_save_load_round_trip(ps_new);
}

} // verus!
