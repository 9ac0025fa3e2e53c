//! Request-dispatch core of a small user CRUD service.
//!
//! The library owns everything that decides: routing a raw request string to
//! a handler, extracting the path identifier and the message body, parsing
//! and encoding the JSON payloads, and composing the status line and body of
//! every reply.  Talking to the relational store and to the network is left
//! to the surrounding binary, which hands the library plain values.
use vstd::prelude::*;

pub mod handlers;
pub mod json;
pub mod laws;
pub mod payload;
pub mod request;
pub mod store;

verus! {

/// A user record as reconstructed from one store row: id, name, email.
pub struct User {
    pub id: i32,
    pub name: String,
    pub email: String,
}

/// Mathematical model of a user record.
#[verifier::ext_equal]
pub struct UserModel {
    pub id: int,
    pub name: Seq<char>,
    pub email: Seq<char>,
}

impl View for User {
    type V = UserModel;

    open spec fn view(&self) -> UserModel {
        UserModel { id: self.id as int, name: self.name@, email: self.email@ }
    }
}

} // verus!
