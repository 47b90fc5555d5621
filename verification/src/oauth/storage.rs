//! Where credentials and cooldown markers are kept.

use crate::text::{ascii_alphanumeric, to_chars};
use vstd::prelude::*;

verus! {

/// The directory that a path starts from.
#[derive(Clone, Copy, Debug, PartialEq, Eq, Structural)]
pub enum AuthBase {
    /// The directory that `JCODE_HOME` names.
    JcodeHome,
    /// The user's home directory.
    UserHome,
    /// The current directory.
    CurrentDir,
}

/// A path: the directory it starts from and the components below it.
#[derive(Debug)]
pub struct AuthPath {
    pub base: AuthBase,
    pub components: Vec<String>,
}

/// `name` with every character but ASCII letters and digits replaced by `_`.
pub open spec fn safe_name(name: Seq<char>) -> Seq<char> {
    Seq::new(
        name.len(),
        |i: int|
            if ascii_alphanumeric(name[i]) {
                name[i]
            } else {
                '_'
            },
    )
}

/// The directory that a path starts from: `JCODE_HOME` where it is set, else the
/// home directory where it is known.
pub open spec fn auth_base(jcode_home: bool, user_home: bool) -> AuthBase {
    if jcode_home {
        AuthBase::JcodeHome
    } else if user_home {
        AuthBase::UserHome
    } else {
        AuthBase::CurrentDir
    }
}

/// The components of the directory that holds credentials and markers.
pub open spec fn auth_components(jcode_home: bool) -> Seq<Seq<char>> {
    if jcode_home {
        seq!["mcp-auth"@]
    } else {
        seq![".jcode"@, "mcp-auth"@]
    }
}

/// The file name that stands for `name` on disk.
fn safe_text(name: &str) -> (r: String)
    ensures
        r@ == safe_name(name@),
{
    let chars = to_chars(name);
    let mut r = String::new();
    for i in 0..chars.len()
        invariant
            chars@ == name@,
            r@ == safe_name(name@).take(i as int),
    {
        let c = chars[i];
        if ('a' <= c && c <= 'z') || ('A' <= c && c <= 'Z') || ('0' <= c && c <= '9') {
            r.push(c);
        } else {
            r.push('_');
        }
    }
    assert(safe_name(name@).take(chars@.len() as int) =~= safe_name(name@));
    r
}

/// Credentials live under `JCODE_HOME` when set (tests and sandboxed runs),
/// otherwise under `.jcode` in the home directory.
pub fn auth_dir(jcode_home: bool, user_home: bool) -> (r: AuthPath)
    ensures
        r.base == auth_base(jcode_home, user_home),
        r.components.deep_view() == auth_components(jcode_home),
{
    let base = if jcode_home {
        AuthBase::JcodeHome
    } else if user_home {
        AuthBase::UserHome
    } else {
        AuthBase::CurrentDir
    };
    let mut components: Vec<String> = Vec::new();
    if !jcode_home {
        components.push(".jcode".to_owned());
    }
    components.push("mcp-auth".to_owned());
    assert(components.deep_view() =~= auth_components(jcode_home));
    AuthPath { base, components }
}

/// The directory of credentials and markers, with one component more.
fn auth_file(jcode_home: bool, user_home: bool, server: &str, suffix: &str) -> (r: AuthPath)
    ensures
        r.base == auth_base(jcode_home, user_home),
        r.components.deep_view() == auth_components(jcode_home).push(safe_name(server@) + suffix@),
{
    let mut path = auth_dir(jcode_home, user_home);
    let mut file = safe_text(server);
    file.append(suffix);
    let ghost had = path.components.deep_view();
    path.components.push(file);
    assert(path.components.deep_view() =~= had.push(file@));
    path
}

/// Where the credentials for a server are kept. The file name is derived from the
/// server name, so servers on one host keep separate credentials unless their names
/// differ only in characters that are neither ASCII letters nor digits.
pub fn token_path(jcode_home: bool, user_home: bool, server: &str) -> (r: AuthPath)
    ensures
        r.base == auth_base(jcode_home, user_home),
        r.components.deep_view() == auth_components(jcode_home).push(
            safe_name(server@) + ".json"@,
        ),
{
    auth_file(jcode_home, user_home, server, ".json")
}

/// Where the marker of a server's last interactive sign-in is kept.
pub fn interactive_auth_cooldown_path(jcode_home: bool, user_home: bool, name: &str) -> (r:
    AuthPath)
    ensures
        r.base == auth_base(jcode_home, user_home),
        r.components.deep_view() == auth_components(jcode_home).push(
            safe_name(name@) + ".prompt"@,
        ),
{
    auth_file(jcode_home, user_home, name, ".prompt")
}

/// Two servers share a file exactly when their names differ, if at all, only in
/// characters that are neither ASCII letters nor digits.
pub proof fn servers_keep_separate_files(a: Seq<char>, b: Seq<char>, suffix: Seq<char>)
    ensures
        safe_name(a) + suffix == safe_name(b) + suffix <==> a.len() == b.len() && (forall|i: int|
            0 <= i < a.len() ==> #[trigger] a[i] == b[i] || separator(a[i]) && separator(b[i])),
{
    let x = safe_name(a);
    let y = safe_name(b);
    if x + suffix == y + suffix {
        assert((x + suffix).len() == (y + suffix).len());
        assert forall|i: int| 0 <= i < a.len() implies #[trigger] a[i] == b[i] || separator(a[i])
            && separator(b[i]) by {
            assert((x + suffix)[i] == x[i]);
            assert((y + suffix)[i] == y[i]);
        }
    } else if a.len() == b.len() && (forall|i: int|
        0 <= i < a.len() ==> #[trigger] a[i] == b[i] || separator(a[i]) && separator(b[i])) {
        assert(x =~= y);
    }
}

/// A character that a file name does not tell from `_`.
pub open spec fn separator(c: char) -> bool {
    c == '_' || !ascii_alphanumeric(c)
}

/// A file name holds no character that could lead out of its directory.
pub proof fn file_names_stay_in_their_directory(name: Seq<char>)
    ensures
        forall|i: int|
            0 <= i < safe_name(name).len() ==> #[trigger] ascii_alphanumeric(safe_name(name)[i])
                || safe_name(name)[i] == '_',
        safe_name(name).len() == name.len(),
{
}

/// A server's credentials and its marker are different files, and no server's
/// marker is another server's credentials.
pub proof fn credentials_are_not_markers(a: Seq<char>, b: Seq<char>)
    ensures
        safe_name(a) + ".json"@ != safe_name(b) + ".prompt"@,
{
    reveal_strlit(".json");
    reveal_strlit(".prompt");
    let x = safe_name(a) + ".json"@;
    let y = safe_name(b) + ".prompt"@;
    assert(x.last() == 'n');
    assert(y.last() == 't');
}

/// A file name keeps each ASCII letter and digit where it stands and has an underscore
/// in place of each other character.
pub proof fn letters_and_digits_are_kept(name: Seq<char>, i: int)
    requires
        0 <= i < name.len(),
    ensures
        safe_name(name).len() == name.len(),
        'a' <= name[i] <= 'z' || 'A' <= name[i] <= 'Z' || '0' <= name[i] <= '9' ==> safe_name(
            name,
        )[i] == name[i],
        !('a' <= name[i] <= 'z' || 'A' <= name[i] <= 'Z' || '0' <= name[i] <= '9') ==> safe_name(
            name,
        )[i] == '_',
{
}

/// The directory that is set is used as it is, whether or not a home directory is
/// known; else one below the home directory, or below the current one.
pub proof fn directories_follow_the_settings(jcode_home: bool, user_home: bool)
    ensures
        jcode_home ==> auth_base(jcode_home, user_home) is JcodeHome,
        !jcode_home && user_home ==> auth_base(jcode_home, user_home) is UserHome,
        !jcode_home && !user_home ==> auth_base(jcode_home, user_home) is CurrentDir,
        jcode_home ==> auth_components(jcode_home).len() == 1,
        !jcode_home ==> auth_components(jcode_home).len() == 2 && auth_components(jcode_home)[0]
            == ".jcode"@,
        auth_components(jcode_home).last() == "mcp-auth"@,
{
}

} // verus!
