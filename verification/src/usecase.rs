use vstd::prelude::*;
use crate::dto::{CreateUserRequestDto, CreateUserResponseDto};
use crate::idgen::IdGeneratorInterface;
use crate::repository::UserRepositoryInterface;
use crate::user::{User, user_wf};

verus! {

/// One application-level operation: create a user from a request and
/// report the persisted record. The response echoes the request's four
/// fields verbatim, and the collection grows by exactly the record the
/// response describes.
pub trait CreateUserUsecaseInterface: Sized {
    spec fn stored(&self) -> Seq<crate::user::UserV>;

    spec fn inv(&self) -> bool;

    fn execute(&mut self, request_dto: CreateUserRequestDto) -> (r: CreateUserResponseDto)
        requires
            old(self).inv(),
        ensures
            final(self).inv(),
            r@.name == request_dto.name@,
            r@.email == request_dto.email@,
            r@.password == request_dto.password@,
            r@.address == request_dto.address@,
            r@.created_at == r@.updated_at,
            user_wf(r@),
            final(self).stored() == old(self).stored().push(r@),
    ;
}

/// Orchestrates a creation: obtain a fresh identifier, build the entity,
/// persist it, and map it to the response shape. Persistence itself is
/// the caller's duty: it takes the collection's text from the repository
/// and writes it out, and a write failure is not surfaced here.
pub struct CreateUserUseCase<T: UserRepositoryInterface, U: IdGeneratorInterface> {
    pub user_repository: T,
    pub id_generator: U,
}

impl<T: UserRepositoryInterface, U: IdGeneratorInterface> CreateUserUseCase<T, U> {
    pub fn new(user_repository: T, id_generator: U) -> (r: Self)
        ensures
            r.user_repository == user_repository,
            r.id_generator == id_generator,
    {
        CreateUserUseCase { user_repository, id_generator }
    }
}

impl<T: UserRepositoryInterface, U: IdGeneratorInterface> CreateUserUsecaseInterface for CreateUserUseCase<T, U> {
    open spec fn stored(&self) -> Seq<crate::user::UserV> {
        self.user_repository.users()
    }

    open spec fn inv(&self) -> bool {
        self.user_repository.inv()
    }

    fn execute(&mut self, request_dto: CreateUserRequestDto) -> (r: CreateUserResponseDto) {
        let id = self.id_generator.generate();

        let user = User::new(
            id,
            request_dto.name.clone(),
            request_dto.email.clone(),
            request_dto.password.clone(),
            request_dto.address.clone(),
        );

        let user = self.user_repository.create(user);

        CreateUserResponseDto {
            id: user.id(),
            name: request_dto.name,
            email: request_dto.email,
            password: request_dto.password,
            address: request_dto.address,
            created_at: user.created_at(),
            updated_at: user.updated_at(),
        }
    }
}

} // verus!
