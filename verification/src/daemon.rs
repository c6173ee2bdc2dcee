//! Decisions behind the desktop's ownership of the Insulator daemon: whether
//! to connect to a remote daemon or spawn the local one, which executable
//! names the local daemon is looked up under and where it is taken from, and
//! the local host name shown in the settings.

use vstd::prelude::*;
use crate::platform::{first_found, first_found_exec};
use crate::text::{decode_utf8_lossy, slice_chars, string_of, trim, trim_bounds, trimmed, utf8_lossy};

verus! {

/// How the desktop reaches its daemon, from the daemon address and token
/// environment variables.
#[derive(Debug)]
pub enum DaemonLaunch {
    /// Both are set: connect to the daemon at `address` (trimmed) with `token`.
    Connect { address: String, token: String },
    /// The address is set but the token is missing: an error.
    MissingToken,
    /// The token is set but the address is missing: an error.
    MissingAddress,
    /// Neither is set: spawn the local daemon.
    SpawnLocal,
}

/// An address counts as set when it is not blank, a token when it is not
/// empty.
pub open spec fn address_set(address: Option<String>) -> bool {
    address matches Some(a) && trim(a@).len() > 0
}

pub open spec fn token_set(token: Option<String>) -> bool {
    token matches Some(t) && t@.len() > 0
}

pub fn daemon_launch(address: Option<String>, token: Option<String>) -> (r: DaemonLaunch)
    ensures
        address_set(address) && token_set(token) ==> (r matches DaemonLaunch::Connect { address: a, token: t }
            && a@ == trim(address->0@) && t == token->0),
        address_set(address) && !token_set(token) ==> r is MissingToken,
        !address_set(address) && token_set(token) ==> r is MissingAddress,
        !address_set(address) && !token_set(token) ==> r is SpawnLocal,
{
    let address = match address {
        Some(a) => {
            let t = trimmed(a.as_str());
            if t.as_str().is_empty() {
                None
            } else {
                Some(t)
            }
        },
        None => None,
    };
    let token = match token {
        Some(t) => if t.as_str().is_empty() {
            None
        } else {
            Some(t)
        },
        None => None,
    };
    match (address, token) {
        (Some(address), Some(token)) => DaemonLaunch::Connect { address, token },
        (Some(_), None) => DaemonLaunch::MissingToken,
        (None, Some(_)) => DaemonLaunch::MissingAddress,
        (None, None) => DaemonLaunch::SpawnLocal,
    }
}

/// The executable names the local daemon is looked up under, in order,
/// each with the platform's executable suffix.
pub open spec fn daemon_names(exe_suffix: Seq<char>) -> Seq<Seq<char>> {
    seq!["insulator-debug-daemon"@ + exe_suffix, "insulator-daemon"@ + exe_suffix, "insulator-daemon"@ + exe_suffix]
}

pub fn daemon_executable_names(exe_suffix: &str) -> (r: Vec<String>)
    ensures
        r@.len() == 3,
        forall|k: int| 0 <= k < 3 ==> (#[trigger] r@[k])@ == daemon_names(exe_suffix@)[k],
{
    let mut names: Vec<String> = Vec::new();
    let mut a = String::from_str("insulator-debug-daemon");
    a.append(exe_suffix);
    names.push(a);
    let mut b = String::from_str("insulator-daemon");
    b.append(exe_suffix);
    names.push(b);
    let mut c = String::from_str("insulator-daemon");
    c.append(exe_suffix);
    names.push(c);
    names
}

/// Where the local daemon executable was found.
#[derive(Clone, Copy, Debug, PartialEq, Eq, Structural)]
pub enum DaemonLocation {
    /// The non-empty path named by `INSULATOR_DAEMON_PATH`.
    Explicit,
    /// The daemon name at this position, in Cargo's debug directory.
    DebugDirectory(usize),
    /// The daemon name at this position, beside the app executable.
    Sibling(usize),
    /// None of the daemon names is a file in either place.
    Missing,
}

/// Where the daemon is taken from: the explicit path when one is set; in a
/// debug build, the first daemon name that is a file in Cargo's debug
/// directory; then the first that is a file beside the app executable.
/// `debug_found` and `sibling_found` hold, for each daemon name in order,
/// whether it is a file there; each is `None` when there is no such
/// directory (or, for the debug directory, in a release build).
pub open spec fn daemon_location(
    explicit_path_set: bool,
    debug_found: Option<Vec<bool>>,
    sibling_found: Option<Vec<bool>>,
) -> DaemonLocation {
    let in_debug = match debug_found {
        Some(d) => first_found(d@),
        None => None,
    };
    let beside = match sibling_found {
        Some(s) => first_found(s@),
        None => None,
    };
    if explicit_path_set {
        DaemonLocation::Explicit
    } else if in_debug is Some {
        DaemonLocation::DebugDirectory(in_debug->0 as usize)
    } else if beside is Some {
        DaemonLocation::Sibling(beside->0 as usize)
    } else {
        DaemonLocation::Missing
    }
}

pub fn locate_daemon_executable(
    explicit_path_set: bool,
    debug_found: Option<Vec<bool>>,
    sibling_found: Option<Vec<bool>>,
) -> (r: DaemonLocation)
    ensures
        r == daemon_location(explicit_path_set, debug_found, sibling_found),
{
    if explicit_path_set {
        return DaemonLocation::Explicit;
    }
    if let Some(d) = &debug_found {
        if let Some(i) = first_found_exec(d) {
            return DaemonLocation::DebugDirectory(i);
        }
    }
    if let Some(s) = &sibling_found {
        if let Some(i) = first_found_exec(s) {
            return DaemonLocation::Sibling(i);
        }
    }
    DaemonLocation::Missing
}

/// The explicit path always wins. Otherwise the first daemon name that is
/// a file in Cargo's debug directory is taken, then the first that is a
/// file beside the app executable: a name is never taken while an earlier
/// name in the same place is a file, and the daemon is missing only when no
/// name is a file in either place.
pub proof fn law_first_found_daemon_wins(
    explicit_path_set: bool,
    debug_found: Option<Vec<bool>>,
    sibling_found: Option<Vec<bool>>,
)
    ensures
        ({
            let r = daemon_location(explicit_path_set, debug_found, sibling_found);
            let debug_hit = debug_found matches Some(d) && exists|j: int| 0 <= j < d@.len() && d@[j];
            let sibling_hit = sibling_found matches Some(s) && exists|j: int| 0 <= j < s@.len() && s@[j];
            &&& explicit_path_set ==> r is Explicit
            &&& !explicit_path_set && debug_hit ==> (r matches DaemonLocation::DebugDirectory(i) && {
                let d = debug_found->0@;
                &&& i < d.len() && d[i as int]
                &&& forall|k: int| 0 <= k < i ==> !d[k]
            })
            &&& !explicit_path_set && !debug_hit && sibling_hit ==> (r matches DaemonLocation::Sibling(i) && {
                let s = sibling_found->0@;
                &&& i < s.len() && s[i as int]
                &&& forall|k: int| 0 <= k < i ==> !s[k]
            })
            &&& r is Missing <==> (!explicit_path_set && !debug_hit && !sibling_hit)
        }),
{
    if let Some(d) = debug_found {
        if exists|j: int| 0 <= j < d@.len() && d@[j] {
            let c = choose|c: int| 0 <= c < d@.len() && d@[c] && forall|k: int| 0 <= k < c ==> !d@[k];
            lemma_first_index_exists(d@);
            assert(first_found(d@) == Some(c));
            assert(d@.len() == d.len());
            assert((c as usize) as int == c);
        }
    }
    if let Some(s) = sibling_found {
        if exists|j: int| 0 <= j < s@.len() && s@[j] {
            let c = choose|c: int| 0 <= c < s@.len() && s@[c] && forall|k: int| 0 <= k < c ==> !s@[k];
            lemma_first_index_exists(s@);
            assert(first_found(s@) == Some(c));
            assert(s@.len() == s.len());
            assert((c as usize) as int == c);
        }
    }
}

/// A sequence with a `true` in it has a first `true`.
proof fn lemma_first_index_exists(found: Seq<bool>)
    requires
        exists|j: int| 0 <= j < found.len() && found[j],
    ensures
        exists|c: int| 0 <= c < found.len() && found[c] && forall|k: int| 0 <= k < c ==> !found[k],
    decreases found.len(),
{
    let j = choose|j: int| 0 <= j < found.len() && found[j];
    if exists|k: int| 0 <= k < j && found[k] {
        let k0 = choose|k: int| 0 <= k < j && found[k];
        assert(found.take(j)[k0]);
        lemma_first_index_exists(found.take(j));
        let c = choose|c: int| 0 <= c < found.take(j).len() && found.take(j)[c] && forall|k: int| 0 <= k < c ==> !found.take(j)[k];
        assert(found[c]);
        assert forall|k: int| 0 <= k < c implies !found[k] by {
            assert(found[k] == found.take(j)[k]);
        }
    } else {
        assert(forall|k: int| 0 <= k < j ==> !found[k]);
    }
}

/// The error reported when no daemon executable is found, naming where the
/// first daemon name was expected; a debug build also looked in Cargo's
/// debug directory and says so.
pub open spec fn daemon_missing_text(default_sibling: Seq<char>, debug_build: bool) -> Seq<char> {
    if debug_build {
        "Insulator daemon was not found in Cargo's debug directory or next to the app executable: "@
            + default_sibling
    } else {
        "Insulator daemon is missing next to the app executable: "@ + default_sibling
    }
}

pub fn daemon_missing_message(default_sibling: &str, debug_build: bool) -> (r: String)
    ensures
        r@ == daemon_missing_text(default_sibling@, debug_build),
{
    let mut m = if debug_build {
        String::from_str(
            "Insulator daemon was not found in Cargo's debug directory or next to the app executable: ",
        )
    } else {
        String::from_str("Insulator daemon is missing next to the app executable: ")
    };
    m.append(default_sibling);
    m
}

/// The index of the first zero byte of `b` at or after `i`, or `b.len()`.
pub open spec fn zero_from(b: Seq<u8>, i: int) -> int
    decreases b.len() - i,
{
    if i >= b.len() {
        b.len() as int
    } else if b[i] == 0 {
        i
    } else {
        zero_from(b, i + 1)
    }
}

proof fn lemma_zero_from(b: Seq<u8>, i: int)
    requires
        0 <= i <= b.len(),
    ensures
        i <= zero_from(b, i) <= b.len(),
    decreases b.len() - i,
{
    if i < b.len() && b[i] != 0 {
        lemma_zero_from(b, i + 1);
    }
}

/// The host name in the buffer `gethostname` filled: the bytes before the
/// first NUL, decoded (lossily) and trimmed.
pub open spec fn host_from_buffer(buffer: Seq<u8>) -> Seq<char> {
    trim(utf8_lossy(buffer.take(zero_from(buffer, 0))))
}

/// The first environment value that is not blank, trimmed.
pub open spec fn first_nonblank(values: Seq<Option<String>>, i: int) -> Option<Seq<char>>
    decreases values.len() - i,
{
    if i < 0 || i >= values.len() {
        None
    } else if values[i] matches Some(v) && trim(v@).len() > 0 {
        Some(trim(values[i]->0@))
    } else {
        first_nonblank(values, i + 1)
    }
}

/// The local host name: the one `gethostname` reported when it is not
/// blank, else the first non-blank environment value (`COMPUTERNAME`, then
/// `HOSTNAME`).
pub open spec fn local_hostname_of(buffer: Option<Seq<u8>>, env_values: Seq<Option<String>>) -> Option<Seq<char>> {
    if buffer matches Some(b) && host_from_buffer(b).len() > 0 {
        Some(host_from_buffer(buffer->0))
    } else {
        first_nonblank(env_values, 0)
    }
}

proof fn lemma_zero_from_is_first_nul(b: Seq<u8>, z: int, i: int)
    requires
        0 <= i <= z <= b.len(),
        z == b.len() || b[z] == 0,
        forall|k: int| 0 <= k < z ==> b[k] != 0,
    ensures
        zero_from(b, i) == z,
    decreases z - i,
{
    if i < z {
        lemma_zero_from_is_first_nul(b, z, i + 1);
    }
}

proof fn lemma_first_nonblank_is_first(values: Seq<Option<String>>, i: int, j: int)
    requires
        0 <= j <= i < values.len(),
        values[i] matches Some(v) && trim(v@).len() > 0,
        forall|k: int| 0 <= k < i ==> !(#[trigger] values[k] matches Some(v) && trim(v@).len() > 0),
    ensures
        first_nonblank(values, j) == Some(trim(values[i]->0@)),
    decreases i - j,
{
    if j < i {
        lemma_first_nonblank_is_first(values, i, j + 1);
    }
}

proof fn lemma_all_blank(values: Seq<Option<String>>, j: int)
    requires
        0 <= j,
        forall|k: int| 0 <= k < values.len() ==> !(#[trigger] values[k] matches Some(v) && trim(v@).len() > 0),
    ensures
        first_nonblank(values, j) is None,
    decreases values.len() - j,
{
    if j < values.len() {
        lemma_all_blank(values, j + 1);
    }
}

/// The name `gethostname` reported wins whenever it is not blank: the bytes
/// before its first NUL (all of them when there is none), decoded and
/// trimmed, whatever the environment holds.
pub proof fn law_gethostname_wins(b: Seq<u8>, z: int, env_values: Seq<Option<String>>)
    requires
        0 <= z <= b.len(),
        z == b.len() || b[z] == 0,
        forall|k: int| 0 <= k < z ==> b[k] != 0,
        trim(utf8_lossy(b.take(z))).len() > 0,
    ensures
        local_hostname_of(Some(b), env_values) == Some(trim(utf8_lossy(b.take(z)))),
{
    lemma_zero_from_is_first_nul(b, z, 0);
}

/// Without a usable `gethostname` name (none, or blank), the first
/// environment value that is not blank is taken, trimmed; when every value
/// is blank or unset there is no host name.
pub proof fn law_environment_is_the_fallback(buffer: Option<Seq<u8>>, env_values: Seq<Option<String>>, i: int)
    requires
        buffer matches Some(b) ==> host_from_buffer(b).len() == 0,
    ensures
        0 <= i < env_values.len() && (env_values[i] matches Some(v) && trim(v@).len() > 0)
            && (forall|k: int| 0 <= k < i ==> !(#[trigger] env_values[k] matches Some(v) && trim(v@).len() > 0))
            ==> local_hostname_of(buffer, env_values) == Some(trim(env_values[i]->0@)),
        (forall|k: int| 0 <= k < env_values.len() ==> !(#[trigger] env_values[k] matches Some(v) && trim(v@).len() > 0))
            ==> local_hostname_of(buffer, env_values) is None,
{
    if 0 <= i < env_values.len() && (env_values[i] matches Some(v) && trim(v@).len() > 0)
        && (forall|k: int| 0 <= k < i ==> !(#[trigger] env_values[k] matches Some(v) && trim(v@).len() > 0)) {
        lemma_first_nonblank_is_first(env_values, i, 0);
    }
    if forall|k: int| 0 <= k < env_values.len() ==> !(#[trigger] env_values[k] matches Some(v) && trim(v@).len() > 0) {
        lemma_all_blank(env_values, 0);
    }
}

/// The bytes `gethostname` filled in, if any.
pub open spec fn bytes_of(buffer: Option<&[u8]>) -> Option<Seq<u8>> {
    match buffer {
        Some(b) => Some(b@),
        None => None,
    }
}

fn hostname_from_buffer(buffer: &[u8]) -> (r: String)
    ensures
        r@ == host_from_buffer(buffer@),
{
    let mut n: usize = 0;
    while n < buffer.len() && buffer[n] != 0
        invariant
            n <= buffer@.len(),
            zero_from(buffer@, 0) == zero_from(buffer@, n as int),
        decreases buffer.len() - n,
    {
        n = n + 1;
    }
    let mut prefix: Vec<u8> = Vec::new();
    let mut k: usize = 0;
    while k < n
        invariant
            n <= buffer@.len(),
            k <= n,
            prefix@ == buffer@.take(k as int),
        decreases n - k,
    {
        prefix.push(buffer[k]);
        assert(buffer@.take(k + 1) =~= buffer@.take(k as int).push(buffer@[k as int]));
        k = k + 1;
    }
    let cs = decode_utf8_lossy(prefix.as_slice());
    let (a, b) = trim_bounds(cs.as_slice());
    let t = slice_chars(cs.as_slice(), a, b);
    string_of(t.as_slice())
}

/// Resolve the local host name from what `gethostname` filled in (`None`
/// when it failed or the platform has none) and the values of the
/// `COMPUTERNAME` and `HOSTNAME` environment variables.
pub fn resolve_local_hostname(buffer: Option<&[u8]>, env_values: &[Option<String>]) -> (r: Option<String>)
    ensures
        r matches Some(h) ==> local_hostname_of(bytes_of(buffer), env_values@) == Some(h@),
        r is None ==> local_hostname_of(bytes_of(buffer), env_values@) is None,
{
    if let Some(b) = buffer {
        let host = hostname_from_buffer(b);
        if !host.as_str().is_empty() {
            return Some(host);
        }
    }
    let mut i: usize = 0;
    while i < env_values.len()
        invariant
            i <= env_values@.len(),
            first_nonblank(env_values@, 0) == first_nonblank(env_values@, i as int),
            local_hostname_of(bytes_of(buffer), env_values@) == first_nonblank(env_values@, 0),
        decreases env_values.len() - i,
    {
        if let Some(v) = &env_values[i] {
            let t = trimmed(v.as_str());
            if !t.as_str().is_empty() {
                return Some(t);
            }
        }
        i = i + 1;
    }
    None
}

} // verus!
