//! Bearer authentication.

use vstd::prelude::*;

use crate::error::Error;
use crate::sql::opt_view;
use crate::text::{has_prefix, law_utf8_is_injective, str_eq, strip_prefix};

verus! {

/// Whether the two byte strings are the same. Where they have one length,
/// every byte is looked at, so that the time tells nothing of where they
/// differ.
pub fn constant_time_eq(a: &[u8], b: &[u8]) -> (r: bool)
    ensures
        r == (a@ == b@),
{
    if a.len() != b.len() {
        return false;
    }
    let mut diff: u8 = 0;
    let mut i: usize = 0;
    while i < a.len()
        invariant
            i <= a.len(),
            a.len() == b.len(),
            diff == 0 <==> (forall|j: int| 0 <= j < i ==> a@[j] == b@[j]),
        decreases a.len() - i,
    {
        let x: u8 = a[i];
        let y: u8 = b[i];
        assert((diff | (x ^ y)) == 0 <==> (diff == 0 && x == y)) by (bit_vector);
        let ghost before = diff;
        diff = diff | (x ^ y);
        assert(diff == 0 <==> (forall|j: int| 0 <= j < i + 1 ==> a@[j] == b@[j])) by {
            if before == 0 && x == y {
                assert forall|j: int| 0 <= j < i + 1 implies a@[j] == b@[j] by {}
            }
        }
        i = i + 1;
    }
    proof {
        if diff == 0 {
            assert(a@ =~= b@);
        }
    }
    diff == 0
}

/// Whether the value of the header `Authorization` carries this token.
pub open spec fn carries(header: Option<Seq<char>>, api_key: Seq<char>) -> bool {
    header == Some("Bearer "@ + api_key)
}

/// Lets a request through whose header `Authorization` is `Bearer`, a space
/// and the key. `header` is `None` where there is no such header, or none that
/// is text.
pub fn require_bearer(header: Option<&str>, api_key: &str) -> (r: Result<(), Error>)
    ensures
        r is Ok <==> carries(opt_view(header), api_key@),
        r matches Err(e) ==> e is Unauthorized,
{
    let value = match header {
        Some(value) => value,
        None => return Err(Error::Unauthorized),
    };
    let token = match strip_prefix(value, "Bearer ") {
        Some(token) => token,
        None => {
            proof {
                if value@ == "Bearer "@ + api_key@ {
                    assert(value@.take("Bearer "@.len() as int) =~= "Bearer "@);
                }
            }
            return Err(Error::Unauthorized);
        },
    };
    proof {
        law_utf8_is_injective(token@, api_key@);
        let p = "Bearer "@;
        assert(value@ =~= p + value@.skip(p.len() as int));
        assert((p + api_key@).skip(p.len() as int) =~= api_key@);
    }
    if constant_time_eq(token.as_bytes(), api_key.as_bytes()) {
        Ok(())
    } else {
        Err(Error::Unauthorized)
    }
}

/// Whether a request for this path needs the token: everything below `/api`
/// does, but for `/api/status`.
pub open spec fn is_protected(path: Seq<char>) -> bool {
    (path == "/api"@ || has_prefix(path, "/api/"@)) && path != "/api/status"@
}

/// Decides on a request by its path and header, before anything else is done
/// with it.
pub fn authorize(path: &str, header: Option<&str>, api_key: &str) -> (r: Result<(), Error>)
    ensures
        r is Ok <==> !is_protected(path@) || carries(opt_view(header), api_key@),
        r matches Err(e) ==> e is Unauthorized,
{
    let below_api: bool = str_eq(path, "/api") || strip_prefix(
        path,
        "/api/",
    ).is_some();
    if below_api && !str_eq(path, "/api/status") {
        require_bearer(header, api_key)
    } else {
        Ok(())
    }
}

/// The paths that operators use without a token are open, and the others below
/// `/api` are not.
pub proof fn law_only_health_and_status_are_open(path: Seq<char>)
    ensures
        !is_protected("/healthz"@),
        !is_protected("/api/status"@),
        has_prefix(path, "/api/"@) && path != "/api/status"@ ==> is_protected(path),
        is_protected("/api/tasks"@),
        is_protected("/api/projects"@),
{
    reveal_strlit("/healthz");
    reveal_strlit("/api/status");
    reveal_strlit("/api/");
    reveal_strlit("/api");
    reveal_strlit("/api/tasks");
    reveal_strlit("/api/projects");
    assert("/healthz"@.take(5)[1] == 'h');
    assert("/api/"@[1] == 'a');
    assert("/api/tasks"@.take(5) =~= "/api/"@);
    assert("/api/projects"@.take(5) =~= "/api/"@);
    assert("/api/tasks"@[5] == 't' && "/api/status"@[5] == 's' && "/api/projects"@[5] == 'p');
}

/// A header carries a key exactly where it is the word `Bearer`, a space and the
/// key to the letter, so that one header carries one key.
pub proof fn law_a_header_carries_one_key(header: Seq<char>, key: Seq<char>, other: Seq<char>)
    ensures
        carries(Some(header), key) <==> header.len() == 7 + key.len() && header.take(7)
            == "Bearer "@ && header.skip(7) == key,
        carries(Some(header), key) && carries(Some(header), other) ==> key == other,
        !carries(None, key),
{
    reveal_strlit("Bearer ");
    if carries(Some(header), key) {
        assert(header.take(7) =~= "Bearer "@);
        assert(header.skip(7) =~= key);
    }
    if carries(Some(header), other) {
        assert(header.skip(7) =~= other);
    }
    if header.len() == 7 + key.len() && header.take(7) == "Bearer "@ && header.skip(7) == key {
        assert(header =~= "Bearer "@ + key) by {
            assert forall|i: int| 0 <= i < header.len() implies header[i] == ("Bearer "@
                + key)[i] by {
                if i < 7 {
                    assert(header.take(7)[i] == header[i]);
                } else {
                    assert(header.skip(7)[i - 7] == header[i]);
                }
            }
        }
    }
}

/// What is open is outside `/api`, or the path of the status itself.
pub proof fn law_open_paths(path: Seq<char>)
    ensures
        !is_protected(path) <==> path == "/api/status"@ || (path != "/api"@ && !(path.len() >= 5
            && path.take(5) == "/api/"@)),
{
    reveal_strlit("/api/");
    reveal_strlit("/api/status");
}

} // verus!
