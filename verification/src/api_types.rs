//! The request and filter shapes of the file-listing API.

use vstd::prelude::*;

use crate::metadata::FsFile;

verus! {

/// Columns a file listing can be filtered on.
#[derive(Debug, Clone, Copy, PartialEq, Eq, Structural)]
pub enum FilterCol {
    CreatedAt,
    DeletedAt,
    ContentType,
    Encryption,
    FileSize,
    IsPublic,
    Name,
}

/// Comparison operators of a filter.
#[derive(Debug, Clone, Copy, PartialEq, Eq, Structural)]
pub enum FilterOp {
    Gt,
    Lt,
    Eq,
    Ne,
    IsNull,
    IsNotNull,
    Like,
}

/// Columns a file listing can be ordered by.
#[derive(Debug, Clone, Copy, PartialEq, Eq, Structural)]
pub enum OrderCol {
    DeletedAt,
    CreatedAt,
    FileSize,
}

/// Listing order.
#[derive(Debug, Clone, Copy, PartialEq, Eq, Structural)]
pub enum Order {
    Asc,
    Desc,
}

/// A filter's comparison value, as the server takes it.
#[derive(Debug, Clone)]
pub enum FilterValue {
    Null,
    Bool(bool),
    Number(u64),
    Text(String),
}

/// One filter: a column, an operator, and a comparison value.
#[derive(Debug, Clone)]
pub struct Filter(pub FilterCol, pub FilterOp, pub FilterValue);

/// How the filters of a group combine.
#[derive(Debug, Clone, Copy, PartialEq, Eq, Structural)]
pub enum FilterGroupType {
    And,
    Or,
}

/// A conjunction or disjunction of filters.
#[derive(Debug, Clone)]
pub struct FilterGroup {
    pub type_: FilterGroupType,
    pub filters: Vec<Filter>,
}

/// The raw column filters as entered on the command line: range strings
/// for timestamps and file sizes.
#[derive(Debug, Clone)]
pub struct CliColFilters {
    pub deleted_at: Vec<String>,
    pub created_at: Vec<String>,
    pub file_size: Vec<String>,
}

/// A file-listing request.
#[derive(Debug)]
pub struct GetFilesOpts {
    pub dir_path: String,
    pub filters: Option<Vec<FilterGroup>>,
    pub limit: Option<usize>,
    pub page: Option<usize>,
    pub order_by: Option<OrderCol>,
    pub order: Option<Order>,
}

impl GetFilesOpts {
    /// A request for one directory, with no filters, paging or ordering.
    pub fn new(dir_path: String) -> (r: Self)
        ensures
            r.dir_path == dir_path,
            r.filters matches Some(f) && f@ == Seq::<FilterGroup>::empty(),
            r.limit is None,
            r.page is None,
            r.order_by is None,
            r.order is None,
    {
        GetFilesOpts {
            dir_path,
            filters: Some(Vec::new()),
            limit: None,
            page: None,
            order_by: None,
            order: None,
        }
    }

    /// Add one filter group to the request.
    pub fn add_filter_group(&mut self, group: FilterGroup) -> (r: ())
        ensures
            final (self).dir_path == old(self).dir_path,
            final (self).limit == old(self).limit,
            final (self).page == old(self).page,
            final (self).order_by == old(self).order_by,
            final (self).order == old(self).order,
            match old(self).filters {
                Some(f) => final (self).filters matches Some(g) && g@ == f@.push(group),
                None => final (self).filters matches Some(g) && g@ == seq![group],
            },
    {
        let mut taken: Option<Vec<FilterGroup>> = None;
        std::mem::swap(&mut taken, &mut self.filters);
        match taken {
            Some(mut f) => {
                f.push(group);
                self.filters = Some(f);
            },
            None => {
                let mut f: Vec<FilterGroup> = Vec::new();
                f.push(group);
                self.filters = Some(f);
                proof {
                    assert(self.filters->Some_0@ =~= seq![group]);
                }
            },
        }
    }
}

/// What a file-listing call returns: one page of files and the totals.
pub struct GetFilesReqBody {
    pub files: Vec<FsFile>,
    pub count: usize,
    pub page_size: usize,
}

/// A metadata-update request for one remote file.
#[derive(Debug, Clone)]
pub struct SetMetadata {
    pub path: String,
    pub is_public: Option<bool>,
    pub cache_max_age_seconds: Option<u64>,
    pub name: Option<String>,
}

/// A deletion request: file names within one directory.
#[derive(Debug, Clone)]
pub struct DeleteFilesReqBody {
    pub dir_path: String,
    pub file_names: Vec<String>,
}

/// A move request for one remote file.
#[derive(Debug, Clone)]
pub struct MvOpts {
    pub file_path: String,
    pub new_file_path: String,
}

} // verus!
