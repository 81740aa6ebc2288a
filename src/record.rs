//! Rehydrating keys from stored records whose fields may be unset, and the
//! selector by which a store looks a key up.
use crate::error::{MissingFieldError, RecordField};
use crate::key::{key_from_stored, IsolatedFilePathData, PathKeyView};
use crate::text::owned;
use vstd::prelude::*;

verus! {

/// A stored file path row; any field may be unset.
pub struct FilePathRecord {
    pub location_id: Option<i32>,
    pub is_dir: Option<bool>,
    pub materialized_path: Option<String>,
    pub name: Option<String>,
    pub extension: Option<String>,
}

/// The first unset field that a key needs, checked in the order location,
/// kind, materialized path, name, extension; the location is looked at only
/// when `location` is not supplied apart from the record.
pub open spec fn first_missing(record: FilePathRecord, location: Option<i32>) -> Option<
    RecordField,
> {
    if location is None && record.location_id is None {
        Some(RecordField::LocationId)
    } else if record.is_dir is None {
        Some(RecordField::IsDir)
    } else if record.materialized_path is None {
        Some(RecordField::MaterializedPath)
    } else if record.name is None {
        Some(RecordField::Name)
    } else if record.extension is None {
        Some(RecordField::Extension)
    } else {
        None
    }
}

/// The key that a complete record stands for.
pub open spec fn record_key(record: FilePathRecord, location: Option<i32>) -> PathKeyView {
    key_from_stored(
        match location {
            Some(l) => l,
            None => record.location_id->0,
        },
        record.is_dir->0,
        record.materialized_path->0@,
        record.name->0@,
        record.extension->0@,
    )
}

/// A stored materialized path, when set, is not empty.
pub open spec fn record_paths_usable(record: FilePathRecord) -> bool {
    record.materialized_path matches Some(mp) ==> mp@.len() >= 1
}

/// The natural key by which a store finds one file path row.
pub struct FilePathSelector {
    pub location_id: i32,
    pub materialized_path: String,
    pub name: String,
    pub extension: String,
}

/// One equality condition of a filter over stored file path rows.
pub enum FieldCondition {
    LocationIdEquals(i32),
    MaterializedPathEquals(String),
    NameEquals(String),
    ExtensionEquals(String),
}

/// A filter that holds of a row when all its conditions do.
pub struct FilePathPredicate {
    pub all_of: Vec<FieldCondition>,
}

impl IsolatedFilePathData {
    /// The key of a stored record; `location`, when given, stands in for the
    /// record's own location id.
    fn from_record_parts(record: FilePathRecord, location: Option<i32>) -> (r: Result<
        Self,
        MissingFieldError,
    >)
        requires
            record_paths_usable(record),
        ensures
            match first_missing(record, location) {
                Some(f) => r == Err::<Self, MissingFieldError>(MissingFieldError { field: f }),
                None => r is Ok && r->Ok_0@ == record_key(record, location),
            },
    {
        let location_id = match location {
            Some(l) => l,
            None => match record.location_id {
                Some(l) => l,
                None => return Err(MissingFieldError { field: RecordField::LocationId }),
            },
        };
        let is_dir = match record.is_dir {
            Some(d) => d,
            None => return Err(MissingFieldError { field: RecordField::IsDir }),
        };
        let materialized_path = match record.materialized_path {
            Some(m) => m,
            None => return Err(MissingFieldError { field: RecordField::MaterializedPath }),
        };
        let name = match record.name {
            Some(n) => n,
            None => return Err(MissingFieldError { field: RecordField::Name }),
        };
        let extension = match record.extension {
            Some(e) => e,
            None => return Err(MissingFieldError { field: RecordField::Extension }),
        };
        Ok(Self::from_db_data(location_id, is_dir, materialized_path, name, extension))
    }

    /// The key of a stored record that carries its location id.
    pub fn try_from_record(record: FilePathRecord) -> (r: Result<Self, MissingFieldError>)
        requires
            record_paths_usable(record),
        ensures
            match first_missing(record, None) {
                Some(f) => r == Err::<Self, MissingFieldError>(MissingFieldError { field: f }),
                None => r is Ok && r->Ok_0@ == record_key(record, None),
            },
    {
        Self::from_record_parts(record, None)
    }

    /// The key of a stored record whose location id is supplied apart.
    pub fn try_from_record_in_location(location_id: i32, record: FilePathRecord) -> (r: Result<
        Self,
        MissingFieldError,
    >)
        requires
            record_paths_usable(record),
        ensures
            match first_missing(record, Some(location_id)) {
                Some(f) => r == Err::<Self, MissingFieldError>(MissingFieldError { field: f }),
                None => r is Ok && r->Ok_0@ == record_key(record, Some(location_id)),
            },
    {
        Self::from_record_parts(record, Some(location_id))
    }

    /// The selector that finds this key's row: location, materialized path,
    /// name and extension.
    pub fn to_selector(&self) -> (r: FilePathSelector)
        ensures
            r.location_id == self@.location_id,
            r.materialized_path@ == self@.materialized_path,
            r.name@ == self@.name,
            r.extension@ == self@.extension,
    {
        FilePathSelector {
            location_id: self.location_id(),
            materialized_path: owned(self.materialized_path()),
            name: owned(self.name()),
            extension: owned(self.extension()),
        }
    }

    /// The filter that holds of this key's rows: equal location,
    /// materialized path, name and extension.
    pub fn to_predicate(&self) -> (r: FilePathPredicate)
        ensures
            r.all_of@.len() == 4,
            r.all_of@[0] matches FieldCondition::LocationIdEquals(l) && l == self@.location_id,
            r.all_of@[1] matches FieldCondition::MaterializedPathEquals(m) && m@
                == self@.materialized_path,
            r.all_of@[2] matches FieldCondition::NameEquals(n) && n@ == self@.name,
            r.all_of@[3] matches FieldCondition::ExtensionEquals(e) && e@ == self@.extension,
    {
        FilePathPredicate {
            all_of: vec![
                FieldCondition::LocationIdEquals(self.location_id()),
                FieldCondition::MaterializedPathEquals(owned(self.materialized_path())),
                FieldCondition::NameEquals(owned(self.name())),
                FieldCondition::ExtensionEquals(owned(self.extension())),
            ],
        }
    }
}

} // verus!
