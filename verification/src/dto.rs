use vstd::prelude::*;
use crate::user::UserV;

verus! {

/// Caller-supplied creation request: the four contact fields, with no
/// identifier and no timestamps. Nothing is validated; every value is
/// accepted as-is.
pub struct CreateUserRequestDto {
    pub name: String,
    pub email: String,
    pub password: String,
    pub address: String,
}

impl Clone for CreateUserRequestDto {
    fn clone(&self) -> (r: Self)
        ensures
            r.name@ == self.name@,
            r.email@ == self.email@,
            r.password@ == self.password@,
            r.address@ == self.address@,
    {
        CreateUserRequestDto {
            name: self.name.clone(),
            email: self.email.clone(),
            password: self.password.clone(),
            address: self.address.clone(),
        }
    }
}

/// Flattened projection of a persisted record, handed back to callers:
/// identifier, all fields, both timestamps.
pub struct CreateUserResponseDto {
    pub id: u128,
    pub name: String,
    pub email: String,
    pub password: String,
    pub address: String,
    pub created_at: i64,
    pub updated_at: i64,
}

impl View for CreateUserResponseDto {
    type V = UserV;

    open spec fn view(&self) -> UserV {
        UserV {
            id: self.id,
            name: self.name@,
            email: self.email@,
            password: self.password@,
            address: self.address@,
            created_at: self.created_at as int,
            updated_at: self.updated_at as int,
        }
    }
}

impl Clone for CreateUserResponseDto {
    fn clone(&self) -> (r: Self)
        ensures
            r@ == self@,
    {
        CreateUserResponseDto {
            id: self.id,
            name: self.name.clone(),
            email: self.email.clone(),
            password: self.password.clone(),
            address: self.address.clone(),
            created_at: self.created_at,
            updated_at: self.updated_at,
        }
    }
}

} // verus!
