use vstd::prelude::*;

use crate::text::chars_of;

verus! {

/// The part a program plays on the connection.
#[derive(Clone, Copy, Debug, PartialEq, Eq, Structural)]
pub enum Role {
    /// Waits for the peer to connect.
    Server,
    /// Connects to a waiting peer.
    Client,
    /// A type that the programs do not know.
    Unknown,
}

/// The role that a program type names.
pub open spec fn role_of(prog_type: Seq<char>) -> Role {
    if prog_type == "server"@ {
        Role::Server
    } else if prog_type == "client"@ {
        Role::Client
    } else {
        Role::Unknown
    }
}

fn same_text(a: &Vec<char>, b: &Vec<char>) -> (r: bool)
    ensures
        r == (a@ == b@),
{
    if a.len() != b.len() {
        return false;
    }
    let mut i: usize = 0;
    while i < a.len()
        invariant
            a@.len() == b@.len(),
            i <= a@.len(),
            forall|j: int| 0 <= j < i ==> a@[j] == b@[j],
        decreases a@.len() - i,
    {
        if a[i] != b[i] {
            return false;
        }
        i = i + 1;
    }
    assert(a@ =~= b@);
    true
}

/// The role that the program type given on the command line names.
pub fn role(prog_type: &str) -> (r: Role)
    ensures
        r == role_of(prog_type@),
{
    let t = chars_of(prog_type);
    if same_text(&t, &chars_of("server")) {
        Role::Server
    } else if same_text(&t, &chars_of("client")) {
        Role::Client
    } else {
        Role::Unknown
    }
}

/// The program type and the address, when the command line holds exactly these
/// two arguments after the program's name.
pub fn select_arguments(args: &Vec<String>) -> (r: Option<(String, String)>)
    ensures
        r is Some <==> args@.len() == 3,
        r matches Some((prog_type, addr)) ==> prog_type@ == args@[1]@ && addr@ == args@[2]@,
{
    if args.len() == 3 {
        Some((args[1].clone(), args[2].clone()))
    } else {
        None
    }
}

/// The address to bind, when the command line holds exactly this one argument
/// after the program's name.
pub fn select_bind_address(args: &Vec<String>) -> (r: Option<String>)
    ensures
        r is Some <==> args@.len() == 2,
        r matches Some(addr) ==> addr@ == args@[1]@,
{
    if args.len() == 2 {
        Some(args[1].clone())
    } else {
        None
    }
}

} // verus!
