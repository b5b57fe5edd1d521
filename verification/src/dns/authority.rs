//! The authority for local names, and the records behind it.
use vstd::prelude::*;

use crate::dns::name::{lower_name, LowerName, NameView};
use crate::keymap::KeyMap;

verus! {

/// The data of a DNS record.
#[verifier::external_type_specification]
#[verifier::external_body]
pub struct ExRData(hickory_proto::rr::RData);

/// What can go wrong with a record.
#[derive(Debug)]
pub enum RecordError {
    NotFound,
    /// What a store other than the one in memory says of a failure.
    Failed { reason: String },
}

impl RecordError {
    /// The text shown for the error.
    pub fn message(&self) -> (r: String)
        ensures
            r@ == (match self {
                RecordError::NotFound => "record not found"@,
                RecordError::Failed { reason } => reason@,
            }),
    {
        match self {
            RecordError::NotFound => "record not found".to_string(),
            RecordError::Failed { reason } => reason.clone(),
        }
    }
}

/// A record as a store keeps it.
pub struct Record {
    pub data: hickory_proto::rr::RData,
}

impl DeepView for Record {
    type V = hickory_proto::rr::RData;

    open spec fn deep_view(&self) -> hickory_proto::rr::RData {
        self.data
    }
}

/// Somewhere to keep one record for each name.
pub trait RecordStore {
    /// The records that are kept.
    spec fn records(&self) -> Map<NameView, hickory_proto::rr::RData>;

    /// Keeps `record` for `name`, in place of any other.
    fn add(&mut self, name: LowerName, record: hickory_proto::rr::RData) -> (r: Result<
        (),
        RecordError,
    >)
        ensures
            r is Ok ==> final(self).records() == old(self).records().insert(
                name.deep_view(),
                record,
            ),
    ;

    /// Forgets the record for `name`, if there is one.
    fn del(&mut self, name: LowerName) -> (r: Result<(), RecordError>)
        ensures
            r is Ok ==> final(self).records() == old(self).records().remove(name.deep_view()),
    ;

    /// The record for `name`.
    fn get(&self, name: LowerName) -> (r: Result<&hickory_proto::rr::RData, RecordError>)
        ensures
            r matches Ok(record) ==> self.records().contains_key(name.deep_view()) && *record
                == self.records()[name.deep_view()],
    ;
}

/// Records in memory.
pub struct MemStore(KeyMap<LowerName, Record>);

impl View for MemStore {
    type V = Map<NameView, hickory_proto::rr::RData>;

    closed spec fn view(&self) -> Map<NameView, hickory_proto::rr::RData> {
        self.0@
    }
}

impl MemStore {
    /// A store without records.
    pub fn new() -> (r: Self)
        ensures
            r@ == Map::<NameView, hickory_proto::rr::RData>::empty(),
    {
        MemStore(KeyMap::new())
    }
}

impl RecordStore for MemStore {
    open spec fn records(&self) -> Map<NameView, hickory_proto::rr::RData> {
        self@
    }

    fn add(&mut self, name: LowerName, record: hickory_proto::rr::RData) -> (r: Result<
        (),
        RecordError,
    >)
        ensures
            r is Ok,
            final(self)@ == old(self)@.insert(name.deep_view(), record),
    {
        self.0.insert(name, Record { data: record });
        Ok(())
    }

    fn del(&mut self, name: LowerName) -> (r: Result<(), RecordError>)
        ensures
            r is Ok,
            final(self)@ == old(self)@.remove(name.deep_view()),
    {
        self.0.remove(&name);
        Ok(())
    }

    fn get(&self, name: LowerName) -> (r: Result<&hickory_proto::rr::RData, RecordError>)
        ensures
            match r {
                Ok(record) => self@.contains_key(name.deep_view()) && *record
                    == self@[name.deep_view()],
                Err(error) => !self@.contains_key(name.deep_view()) && error is NotFound,
            },
    {
        match self.0.get(&name) {
            Some(record) => Ok(&record.data),
            None => Err(RecordError::NotFound),
        }
    }
}

/// The kind of a zone.
#[derive(Clone, Copy, Debug, PartialEq, Eq, Structural)]
pub enum ZoneType {
    Primary,
    Secondary,
    External,
}

/// What a lookup found.
pub enum Lookup {
    /// No records.
    Empty,
    /// A set for `name` that holds no records and has no time to live.
    EmptySet { name: LowerName },
}

/// The authority for the names below `origin`.
pub struct LocalAuthority<S: RecordStore> {
    pub origin: LowerName,
    pub store: S,
}

impl LocalAuthority<MemStore> {
    /// The authority for `origin`, which must be a name, without any records.
    pub fn from_mem(origin: &str) -> (r: Self)
        requires
            lower_name(origin@) is Some,
        ensures
            Some(r.origin.deep_view()) == lower_name(origin@),
            r.store@ == Map::<NameView, hickory_proto::rr::RData>::empty(),
    {
        LocalAuthority::start(origin, MemStore::new())
    }

    /// The authority for `origin` without any records, where `origin` is a name.
    pub fn try_from_mem(origin: &str) -> (r: Option<Self>)
        ensures
            r is Some <==> lower_name(origin@) is Some,
            r matches Some(authority) ==> Some(authority.origin.deep_view()) == lower_name(origin@)
                && authority.store@ == Map::<NameView, hickory_proto::rr::RData>::empty(),
    {
        match LowerName::parse(origin) {
            Some(_) => Some(LocalAuthority::from_mem(origin)),
            None => None,
        }
    }
}

impl<S: RecordStore> LocalAuthority<S> {
    /// The authority for `origin`, which must be a name, with the records in `store`.
    pub fn start(origin: &str, store: S) -> (r: Self)
        requires
            lower_name(origin@) is Some,
        ensures
            Some(r.origin.deep_view()) == lower_name(origin@),
            r.store == store,
    {
        LocalAuthority { origin: LowerName::parse(origin).unwrap(), store }
    }

    /// The authority for `origin` with the records in `store`, where `origin` is a name.
    pub fn try_start(origin: &str, store: S) -> (r: Option<Self>)
        ensures
            r is Some <==> lower_name(origin@) is Some,
            r matches Some(authority) ==> Some(authority.origin.deep_view()) == lower_name(origin@)
                && authority.store == store,
    {
        match LowerName::parse(origin) {
            Some(_) => Some(LocalAuthority::start(origin, store)),
            None => None,
        }
    }

    /// The zone is held here.
    pub fn zone_type(&self) -> (r: ZoneType)
        ensures
            r == ZoneType::Primary,
    {
        ZoneType::Primary
    }

    /// The name below which the authority answers.
    pub fn origin(&self) -> (r: &LowerName)
        ensures
            *r == self.origin,
    {
        &self.origin
    }

    /// The zone is never handed out as a whole.
    pub fn is_axfr_allowed(&self) -> (r: bool)
        ensures
            !r,
    {
        false
    }

    /// Dynamic updates change nothing, which is what `false` says.
    pub fn update(&self) -> (r: bool)
        ensures
            !r,
    {
        false
    }

    /// A query is answered by a lookup of its name and type.
    pub fn search(&self, name: &LowerName, rtype: u16) -> (r: Lookup)
        ensures
            r is Empty,
    {
        self.lookup(name, rtype)
    }

    /// Lookups find no records.
    pub fn lookup(&self, name: &LowerName, rtype: u16) -> (r: Lookup)
        ensures
            r is Empty,
    {
        Lookup::Empty
    }

    /// There are no NSEC records for any name.
    pub fn get_nsec_records(&self, name: LowerName) -> (r: Lookup)
        ensures
            r == (Lookup::EmptySet { name }),
    {
        Lookup::EmptySet { name }
    }
}

/// A record that was added is found under its name, and under no other name has anything
/// changed.
pub proof fn added_record_is_found(
    records: Map<NameView, hickory_proto::rr::RData>,
    name: NameView,
    record: hickory_proto::rr::RData,
    other: NameView,
)
    ensures
        ({
            let after = records.insert(name, record);
            &&& after.contains_key(name)
            &&& after[name] == record
            &&& other != name ==> (after.contains_key(other) <==> records.contains_key(other))
            &&& other != name && records.contains_key(other) ==> after[other] == records[other]
        }),
{
}

/// Deleting the record of a name that had none before it was added undoes the addition.
pub proof fn deletion_undoes_addition(
    records: Map<NameView, hickory_proto::rr::RData>,
    name: NameView,
    record: hickory_proto::rr::RData,
)
    requires
        !records.contains_key(name),
    ensures
        records.insert(name, record).remove(name) == records,
{
    assert(records.insert(name, record).remove(name) =~= records);
}

} // verus!
