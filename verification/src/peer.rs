//! The service's command socket: where it lives on disk and which local
//! peers may talk to the privileged daemon through it.

use vstd::prelude::*;
use crate::text::{chars_of, has_prefix, str_eq, string_from_chars};

verus! {

/// Well-known name of the service's command socket.
pub const DEFAULT_NAME: &'static str = "snx-rs.sock";

/// Group id of the local administrators.
pub const ADMIN_GID: u32 = 80;

/// Whether `groups` holds the administrators group.
pub open spec fn has_admin(groups: Option<Seq<u32>>) -> bool {
    match groups {
        Some(g) => g.contains(ADMIN_GID),
        None => false,
    }
}

/// A peer is authorized when its effective uid is known and it is root, the
/// interactive console user, or a member of the administrators group.
pub open spec fn spec_is_authorized(euid: Option<u32>, groups: Option<Seq<u32>>, console_uid: Option<u32>) -> bool {
    match euid {
        Some(uid) => uid == 0 || Some(uid) == console_uid || has_admin(groups),
        None => false,
    }
}

fn contains_u32(g: &[u32], x: u32) -> (r: bool)
    ensures
        r == g@.contains(x),
{
    let mut i: usize = 0;
    while i < g.len()
        invariant
            i <= g@.len(),
            forall|k: int| 0 <= k < i ==> g@[k] != x,
        decreases g@.len() - i,
    {
        if g[i] == x {
            assert(g@[i as int] == x);
            return true;
        }
        i = i + 1;
    }
    false
}

/// Whether a command-socket peer with these credentials may be served.
pub fn is_authorized(euid: Option<u32>, groups: Option<&[u32]>, console_uid: Option<u32>) -> (r: bool)
    ensures
        r == spec_is_authorized(
            euid,
            match groups {
                Some(g) => Some(g@),
                None => None,
            },
            console_uid,
        ),
{
    match euid {
        Some(uid) => {
            if uid == 0 {
                return true;
            }
            if let Some(c) = console_uid {
                if c == uid {
                    return true;
                }
            }
            match groups {
                Some(g) => contains_u32(g, ADMIN_GID),
                None => false,
            }
        },
        None => false,
    }
}

/// `base` joined with the relative component `name` (`Path::join`).
pub open spec fn path_join(base: Seq<char>, name: Seq<char>) -> Seq<char> {
    if base.len() == 0 {
        name
    } else if base.last() == '/' {
        base + name
    } else {
        base + seq!['/'] + name
    }
}

/// The root-owned directory of the daemon's well-known socket.
pub open spec fn var_run() -> Seq<char> {
    seq!['/', 'v', 'a', 'r', '/', 'r', 'u', 'n']
}

/// Where a command socket named `name` lives: absolute names verbatim, the
/// daemon's well-known socket in `/var/run`, any other name in the user's
/// temporary directory `temp_dir`.
pub open spec fn spec_socket_path(name: Seq<char>, default_name: Seq<char>, temp_dir: Seq<char>) -> Seq<char> {
    if has_prefix(name, seq!['/']) {
        name
    } else if name == default_name {
        path_join(var_run(), name)
    } else {
        path_join(temp_dir, name)
    }
}

fn join(base: &[char], name: &[char]) -> (r: Vec<char>)
    ensures
        r@ == path_join(base@, name@),
{
    let mut r: Vec<char> = Vec::new();
    let mut i: usize = 0;
    while i < base.len()
        invariant
            i <= base@.len(),
            r@ == base@.take(i as int),
        decreases base@.len() - i,
    {
        r.push(base[i]);
        assert(base@.take(i + 1) == base@.take(i as int).push(base@[i as int]));
        i = i + 1;
    }
    assert(base@.take(base@.len() as int) == base@);
    if base.len() > 0 && base[base.len() - 1] != '/' {
        r.push('/');
    }
    let ghost head = r@;
    let mut j: usize = 0;
    while j < name.len()
        invariant
            j <= name@.len(),
            r@ == head + name@.take(j as int),
        decreases name@.len() - j,
    {
        r.push(name[j]);
        assert(name@.take(j + 1) == name@.take(j as int).push(name@[j as int]));
        j = j + 1;
    }
    assert(name@.take(name@.len() as int) == name@);
    r
}

/// Path of the command socket named `name`, given the user's temporary directory.
pub fn socket_path(name: &str, temp_dir: &str) -> (r: String)
    ensures
        r@ == spec_socket_path(name@, DEFAULT_NAME@, temp_dir@),
{
    let cs = chars_of(name);
    if cs.len() > 0 && cs[0] == '/' {
        assert(has_prefix(name@, seq!['/'])) by {
            assert(name@.take(1) =~= seq!['/']);
        }
        return string_from_chars(cs.as_slice());
    }
    assert(!has_prefix(name@, seq!['/'])) by {
        if name@.len() >= 1 {
            assert(name@.take(1)[0] == name@[0]);
        }
    }
    if str_eq(name, DEFAULT_NAME) {
        let base: Vec<char> = vec!['/', 'v', 'a', 'r', '/', 'r', 'u', 'n'];
        assert(base@ == var_run());
        let p = join(base.as_slice(), cs.as_slice());
        string_from_chars(p.as_slice())
    } else {
        let t = chars_of(temp_dir);
        let p = join(t.as_slice(), cs.as_slice());
        string_from_chars(p.as_slice())
    }
}

} // verus!
