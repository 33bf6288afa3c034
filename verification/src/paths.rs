//! Paths written as text.

use crate::text::{cat2, cat3, has_prefix, starts_with};
use vstd::prelude::*;

verus! {

/// Whether `p` is an absolute path.
pub open spec fn absolute(p: Seq<char>) -> bool {
    starts_with(p, "/"@)
}

/// `part` seen from the directory `base`: an absolute `part` stands for itself.
pub open spec fn joined(base: Seq<char>, part: Seq<char>) -> Seq<char> {
    if absolute(part) {
        part
    } else if base.len() > 0 && base.last() != '/' {
        base + "/"@ + part
    } else {
        base + part
    }
}

/// Whether `p` is an absolute path.
pub fn is_absolute(p: &str) -> (r: bool)
    ensures
        r == absolute(p@),
{
    has_prefix(p, "/")
}

fn ends_with_slash(p: &str) -> (r: bool)
    ensures
        r == (p@.len() > 0 && p@.last() == '/'),
{
    let chars = crate::text::chars_of(p);
    chars.len() > 0 && chars[chars.len() - 1] == '/'
}

/// `part` seen from the directory `base`.
pub fn join_path(base: &str, part: &str) -> (r: String)
    ensures
        r@ == joined(base@, part@),
{
    if is_absolute(part) {
        part.to_owned()
    } else if !base.is_empty() && !ends_with_slash(base) {
        cat3(base, "/", part)
    } else {
        cat2(base, part)
    }
}

/// Where the standard output of the app `name` is logged.
pub open spec fn stdout_log(logs_dir: Seq<char>, name: Seq<char>) -> Seq<char> {
    joined(logs_dir, name + ".out.log"@)
}

/// Where the standard error of the app `name` is logged.
pub open spec fn stderr_log(logs_dir: Seq<char>, name: Seq<char>) -> Seq<char> {
    joined(logs_dir, name + ".err.log"@)
}

/// Where the output of the app `name` is logged: standard output, standard
/// error.
pub fn log_files(logs_dir: &str, name: &str) -> (r: (String, String))
    ensures
        r.0@ == stdout_log(logs_dir@, name@),
        r.1@ == stderr_log(logs_dir@, name@),
{
    let out = cat2(name, ".out.log");
    let err = cat2(name, ".err.log");
    (join_path(logs_dir, out.as_str()), join_path(logs_dir, err.as_str()))
}

/// No standard output is logged where a standard error is.
pub proof fn law_logs_are_separate(logs_dir: Seq<char>, one: Seq<char>, other: Seq<char>)
    ensures
        stdout_log(logs_dir, one) != stderr_log(logs_dir, other),
{
    reveal_strlit(".out.log");
    reveal_strlit(".err.log");
    let out = stdout_log(logs_dir, one);
    let err = stderr_log(logs_dir, other);
    lemma_joined_end(logs_dir, one + ".out.log"@);
    lemma_joined_end(logs_dir, other + ".err.log"@);
    assert(out[out.len() - 5] == 't');
    assert(err[err.len() - 5] == 'r');
}

proof fn lemma_joined_end(base: Seq<char>, part: Seq<char>)
    requires
        part.len() >= 5,
    ensures
        joined(base, part).len() >= 5,
        joined(base, part)[joined(base, part).len() - 5] == part[part.len() - 5],
{
}

/// A path is seen from a directory unless it begins with a slash, and there is
/// just one slash between the two.
pub proof fn law_joined_with_one_slash(base: Seq<char>, part: Seq<char>)
    ensures
        part.len() > 0 && part[0] == '/' ==> joined(base, part) == part,
        !(part.len() > 0 && part[0] == '/') ==> {
            &&& base.len() == 0 ==> joined(base, part) == part
            &&& base.len() > 0 && base.last() == '/' ==> joined(base, part) == base + part
            &&& base.len() > 0 && base.last() != '/' ==> joined(base, part) == base.push('/')
                + part
        },
{
    reveal_strlit("/");
    if part.len() > 0 {
        assert(part.take(1) =~= seq![part[0]]);
        assert("/"@ =~= seq!['/']);
        assert(seq![part[0]] == seq!['/'] ==> part[0] == seq!['/'][0]) by {
            assert(seq![part[0]][0] == part[0]);
        }
    }
    assert(base + "/"@ + part =~= base.push('/') + part);
    assert(Seq::<char>::empty() + part =~= part);
    if base.len() == 0 {
        assert(base + part =~= part);
    }
}

/// The logs of an app whose name is no path stand in the directory of the logs,
/// under the name of the app.
pub proof fn law_logs_bear_the_name(logs_dir: Seq<char>, name: Seq<char>)
    requires
        name.len() > 0,
        name[0] != '/',
        logs_dir.len() > 0,
        logs_dir.last() != '/',
    ensures
        stdout_log(logs_dir, name) == logs_dir + "/"@ + name + ".out.log"@,
        stderr_log(logs_dir, name) == logs_dir + "/"@ + name + ".err.log"@,
{
    reveal_strlit("/");
    reveal_strlit(".out.log");
    reveal_strlit(".err.log");
    law_joined_with_one_slash(logs_dir, name + ".out.log"@);
    law_joined_with_one_slash(logs_dir, name + ".err.log"@);
    assert(logs_dir.push('/') + (name + ".out.log"@) =~= logs_dir + "/"@ + name + ".out.log"@);
    assert(logs_dir.push('/') + (name + ".err.log"@) =~= logs_dir + "/"@ + name + ".err.log"@);
}

} // verus!
