//! The record, request, error and statistics types, with their views.

use vstd::prelude::*;
use vstd::string::StringExecFns;
use crate::model::{UserView, CreateView, UpdateView, ErrorView};

verus! {

/// A stored record: the identifier is opaque and immutable, the email is
/// kept lowercase, and `created_at <= updated_at` always holds.
#[derive(Debug)]
pub struct User {
    pub id: String,
    pub name: String,
    pub email: String,
    pub age: u8,
    pub created_at: u64,
    pub updated_at: u64,
}

impl View for User {
    type V = UserView;

    open spec fn view(&self) -> UserView {
        UserView {
            id: self.id@,
            name: self.name@,
            email: self.email@,
            age: self.age,
            created_at: self.created_at,
            updated_at: self.updated_at,
        }
    }
}

impl User {
    /// A field-for-field copy of the record.
    pub fn duplicate(&self) -> (r: User)
        ensures
            r@ == self@,
    {
        User {
            id: self.id.clone(),
            name: self.name.clone(),
            email: self.email.clone(),
            age: self.age,
            created_at: self.created_at,
            updated_at: self.updated_at,
        }
    }
}

/// Untrusted input for creating a record.
#[derive(Debug)]
pub struct CreateUserRequest {
    pub name: String,
    pub email: String,
    pub age: u8,
}

impl View for CreateUserRequest {
    type V = CreateView;

    open spec fn view(&self) -> CreateView {
        CreateView { name: self.name@, email: self.email@, age: self.age }
    }
}

impl CreateUserRequest {
    /// A field-for-field copy of the request.
    pub fn duplicate(&self) -> (r: CreateUserRequest)
        ensures
            r@ == self@,
    {
        CreateUserRequest { name: self.name.clone(), email: self.email.clone(), age: self.age }
    }
}

/// Untrusted input for updating a record; absent fields leave the record's
/// fields unchanged.
#[derive(Debug)]
pub struct UpdateUserRequest {
    pub name: Option<String>,
    pub email: Option<String>,
    pub age: Option<u8>,
}

impl View for UpdateUserRequest {
    type V = UpdateView;

    open spec fn view(&self) -> UpdateView {
        UpdateView {
            name: match self.name {
                Some(ref n) => Some(n@),
                None => None,
            },
            email: match self.email {
                Some(ref e) => Some(e@),
                None => None,
            },
            age: self.age,
        }
    }
}

/// Why a service operation failed.
#[derive(Debug)]
pub enum DatabaseError {
    /// The targeted identifier holds no record.
    UserNotFound,
    /// A create collided with an existing identifier.
    UserAlreadyExists,
    /// The input broke a validation rule, or a bulk insertion task failed
    /// with the carried reason.
    ValidationError(String),
    /// Malformed row data aborted an import.
    ImportParseError(String),
}

impl View for DatabaseError {
    type V = ErrorView;

    open spec fn view(&self) -> ErrorView {
        match self {
            DatabaseError::UserNotFound => ErrorView::NotFound,
            DatabaseError::UserAlreadyExists => ErrorView::AlreadyExists,
            DatabaseError::ValidationError(m) => ErrorView::Validation(m@),
            DatabaseError::ImportParseError(m) => ErrorView::ImportParse(m@),
        }
    }
}

impl DatabaseError {
    /// A human-readable description of the error.
    pub fn message(&self) -> (r: String)
        ensures
            self@ matches ErrorView::NotFound ==> r@ == "User not found"@,
            self@ matches ErrorView::AlreadyExists ==> r@ == "User already exists"@,
            forall|m: Seq<char>|
                self@ == ErrorView::Validation(m) ==> r@ == "Validation error: "@ + m,
            forall|m: Seq<char>|
                self@ == ErrorView::ImportParse(m) ==> r@ == "Import parse error: "@ + m,
    {
        match self {
            DatabaseError::UserNotFound => String::from_str("User not found"),
            DatabaseError::UserAlreadyExists => String::from_str("User already exists"),
            DatabaseError::ValidationError(m) => String::from_str("Validation error: ").concat(
                m.as_str(),
            ),
            DatabaseError::ImportParseError(m) => String::from_str("Import parse error: ").concat(
                m.as_str(),
            ),
        }
    }
}

/// Counters over the operation categories; `total_operations` counts every
/// categorized operation once.
#[derive(Debug, Clone, Copy, PartialEq)]
pub struct ServiceStats {
    pub total_operations: u64,
    pub create_count: u64,
    pub read_count: u64,
    pub update_count: u64,
    pub delete_count: u64,
    pub parallel_operations: u64,
}

/// All counters at zero.
pub open spec fn stats_zero() -> ServiceStats {
    ServiceStats {
        total_operations: 0,
        create_count: 0,
        read_count: 0,
        update_count: 0,
        delete_count: 0,
        parallel_operations: 0,
    }
}

impl ServiceStats {
    /// All counters at zero.
    pub fn zeroed() -> (r: ServiceStats)
        ensures
            r == stats_zero(),
    {
        ServiceStats {
            total_operations: 0,
            create_count: 0,
            read_count: 0,
            update_count: 0,
            delete_count: 0,
            parallel_operations: 0,
        }
    }
}

impl Default for ServiceStats {
    /// All counters at zero.
    fn default() -> (r: ServiceStats)
        ensures
            r == stats_zero(),
    {
        ServiceStats::zeroed()
    }
}

/// The views of a sequence of records.
pub open spec fn views_of(s: Seq<User>) -> Seq<UserView> {
    s.map_values(|u: User| u@)
}

/// The operation categories the statistics distinguish.
#[derive(Debug, Clone, Copy, PartialEq, Eq, Structural)]
pub enum StatCategory {
    Create,
    Read,
    Update,
    Delete,
    Parallel,
}

} // verus!
