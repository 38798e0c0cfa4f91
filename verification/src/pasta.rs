//! The record model: one shareable item ("pasta") with its lifetime,
//! access flags and optional file attachment.

use vstd::prelude::*;

verus! {

/// Seconds in one day, used for the "days since last read" derivation.
pub const SECONDS_PER_DAY: i64 = 86400;

/// Metadata of an optional file payload attached to a record: the display
/// name of the stored file. The file itself lives in a per-record directory
/// on disk, owned by the record and deleted together with it.
#[derive(Debug, Clone, PartialEq)]
pub struct PastaFile {
    pub name: String,
}

/// One stored shareable item with its own lifetime and access policy.
///
/// Timestamps are seconds since a fixed epoch. `expiration == 0` means
/// "never expires by time-to-live"; `burn_after_reads == 0` means
/// "unlimited reads".
#[derive(Debug, Clone, PartialEq)]
pub struct Pasta {
    pub id: u64,
    pub content: String,
    pub file: Option<PastaFile>,
    pub extension: String,
    pub private: bool,
    pub readonly: bool,
    pub editable: bool,
    pub encrypt_server: bool,
    pub encrypt_client: bool,
    pub encrypted_key: Option<String>,
    pub created: i64,
    pub expiration: i64,
    pub last_read: i64,
    pub read_count: u64,
    pub burn_after_reads: u64,
    pub pasta_type: String,
    pub hide_read_count: bool,
}

/// The mathematical value of a record: every string taken as its character
/// sequence. Contracts throughout the library speak of this view.
#[verifier::ext_equal]
pub ghost struct PastaView {
    pub id: u64,
    pub content: Seq<char>,
    pub file: Option<Seq<char>>,
    pub extension: Seq<char>,
    pub private: bool,
    pub readonly: bool,
    pub editable: bool,
    pub encrypt_server: bool,
    pub encrypt_client: bool,
    pub encrypted_key: Option<Seq<char>>,
    pub created: i64,
    pub expiration: i64,
    pub last_read: i64,
    pub read_count: u64,
    pub burn_after_reads: u64,
    pub pasta_type: Seq<char>,
    pub hide_read_count: bool,
}

impl View for Pasta {
    type V = PastaView;

    open spec fn view(&self) -> PastaView {
        PastaView {
            id: self.id,
            content: self.content@,
            file: match self.file {
                Some(f) => Some(f.name@),
                None => None,
            },
            extension: self.extension@,
            private: self.private,
            readonly: self.readonly,
            editable: self.editable,
            encrypt_server: self.encrypt_server,
            encrypt_client: self.encrypt_client,
            encrypted_key: match self.encrypted_key {
                Some(k) => Some(k@),
                None => None,
            },
            created: self.created,
            expiration: self.expiration,
            last_read: self.last_read,
            read_count: self.read_count,
            burn_after_reads: self.burn_after_reads,
            pasta_type: self.pasta_type@,
            hide_read_count: self.hide_read_count,
        }
    }
}

/// The views of a whole collection, in order.
pub open spec fn views_of(ps: Seq<Pasta>) -> Seq<PastaView> {
    ps.map_values(|p: Pasta| p@)
}

/// The collection invariant on identity: no two live records share an id.
pub open spec fn ids_unique(vs: Seq<PastaView>) -> bool {
    forall|i: int, j: int| 0 <= i < j < vs.len() ==> vs[i].id != vs[j].id
}

/// Some record in `vs` carries this id.
pub open spec fn has_id(vs: Seq<PastaView>, id: u64) -> bool {
    exists|k: int| 0 <= k < vs.len() && vs[k].id == id
}

/// How many whole days lie between the record's last read and `now`;
/// zero when the last read is not in the past.
pub open spec fn spec_days_since_last_read(last_read: i64, now: i64) -> int {
    if now <= last_read {
        0
    } else {
        (now - last_read) / (SECONDS_PER_DAY as int)
    }
}

impl Pasta {
    /// An equal copy of the record, field by field.
    pub fn clone_record(&self) -> (r: Pasta)
        ensures
            r@ == self@,
    {
        Pasta {
            id: self.id,
            content: self.content.clone(),
            file: match &self.file {
                Some(f) => Some(PastaFile { name: f.name.clone() }),
                None => None,
            },
            extension: self.extension.clone(),
            private: self.private,
            readonly: self.readonly,
            editable: self.editable,
            encrypt_server: self.encrypt_server,
            encrypt_client: self.encrypt_client,
            encrypted_key: match &self.encrypted_key {
                Some(k) => Some(k.clone()),
                None => None,
            },
            created: self.created,
            expiration: self.expiration,
            last_read: self.last_read,
            read_count: self.read_count,
            burn_after_reads: self.burn_after_reads,
            pasta_type: self.pasta_type.clone(),
            hide_read_count: self.hide_read_count,
        }
    }

    /// Derived value: whole days since the record was last read, as of `now`.
    pub fn last_read_days_ago(&self, now: i64) -> (d: i64)
        ensures
            d == spec_days_since_last_read(self.last_read, now),
    {
        if now <= self.last_read {
            0
        } else {
            let diff: i128 = (now as i128) - (self.last_read as i128);
            let days: i128 = diff / (SECONDS_PER_DAY as i128);
            assert(days <= diff) by (nonlinear_arith)
                requires diff >= 0 && days == diff / 86400;
            days as i64
        }
    }
}

} // verus!
