//! What an app is started with: its command line and its environment.

use crate::error::PyopsError;
use crate::model::{effective_command, env_view, AppSpec, AppSpecView};
use crate::names::{
    distinct, filed, lemma_filed, lemma_position, lemma_position_is, lookup, position, NameMap,
};
use crate::paths::{join_path, joined};
use crate::text::{
    cut, has_prefix, line_seq, split_lines, split_once, starts_with, texts, trim, trimmed,
};
use vstd::prelude::*;

verus! {

/// The program of the app and its arguments, given whether a file exists at
/// its `uvicorn_path`.
pub fn build_command(app: &AppSpec, uvicorn_exists: bool) -> (r: Result<
    (String, Vec<String>),
    PyopsError,
>)
    ensures
        r is Ok,
        seq![r->Ok_0.0@] + texts(r->Ok_0.1@) == app@.command_line(uvicorn_exists),
{
    let mut line = effective_command(app, uvicorn_exists);
    let ghost whole = texts(line@);
    assert(whole.len() > 0);
    let exec = line.remove(0);
    assert(seq![exec@] + texts(line@) =~= whole);
    Ok((exec, line))
}

/// The variable that a line of an environment file sets.
pub open spec fn env_line(line: Seq<char>) -> Option<(Seq<char>, Seq<char>)> {
    let t = trim(line);
    if t.len() == 0 || starts_with(t, "#"@) {
        None
    } else {
        match cut(t, '=') {
            Some((key, value)) if trim(key).len() > 0 => Some((trim(key), trim(value))),
            _ => None,
        }
    }
}

/// The variables that the lines of an environment file set; of two lines for
/// one variable the later counts.
pub open spec fn env_of_lines(lines: Seq<Seq<char>>) -> Seq<(Seq<char>, Seq<char>)>
    decreases lines.len(),
{
    if lines.len() == 0 {
        Seq::empty()
    } else {
        let before = env_of_lines(lines.drop_last());
        match env_line(lines.last()) {
            Some((key, value)) => filed(before, key, value),
            None => before,
        }
    }
}

/// The variables that an environment file sets.
pub open spec fn env_of_text(text: Seq<char>) -> Seq<(Seq<char>, Seq<char>)> {
    env_of_lines(line_seq(text))
}

proof fn lemma_position_env(m: Seq<(Seq<char>, String)>, k: Seq<char>)
    ensures
        position(m, k) == position(
            m.map_values(|e: (Seq<char>, String)| (e.0, e.1@)),
            k,
        ),
{
    let n = m.map_values(|e: (Seq<char>, String)| (e.0, e.1@));
    lemma_position(m, k);
    assert forall|j: int| 0 <= j < position(m, k) implies (#[trigger] n[j]).0 != k by {
        assert(m[j].0 != k);
    }
    lemma_position_is(n, k, position(m, k));
}

proof fn lemma_env_filed(m: Seq<(Seq<char>, String)>, k: Seq<char>, v: String)
    ensures
        filed(m, k, v).map_values(|e: (Seq<char>, String)| (e.0, e.1@)) == filed(
            m.map_values(|e: (Seq<char>, String)| (e.0, e.1@)),
            k,
            v@,
        ),
{
    lemma_position_env(m, k);
    lemma_position(m, k);
    assert(filed(m, k, v).map_values(|e: (Seq<char>, String)| (e.0, e.1@)) =~= filed(
        m.map_values(|e: (Seq<char>, String)| (e.0, e.1@)),
        k,
        v@,
    ));
}

fn parse_env_line(line: &str) -> (r: Option<(String, String)>)
    ensures
        crate::text::opt_pair(r) == env_line(line@),
{
    let t = trimmed(line);
    if t.as_str().is_empty() || has_prefix(t.as_str(), "#") {
        return None;
    }
    match split_once(t.as_str(), '=') {
        Some((key, value)) => {
            let key = trimmed(key.as_str());
            if key.as_str().is_empty() {
                None
            } else {
                Some((key, trimmed(value.as_str())))
            }
        },
        None => None,
    }
}

/// The variables that the environment file with the given text sets.
pub fn load_env_file(text: &str) -> (r: NameMap<String>)
    ensures
        env_view(r) == env_of_text(text@),
        distinct(r@),
{
    let lines = split_lines(text);
    let ghost all = texts(lines@);
    let mut env: NameMap<String> = NameMap::new();
    let mut i: usize = 0;
    assert(env_view(env) =~= env_of_lines(all.take(0)));
    while i < lines.len()
        invariant
            i <= lines@.len(),
            all == texts(lines@),
            env_view(env) == env_of_lines(all.take(i as int)),
            distinct(env@),
        decreases lines@.len() - i,
    {
        assert(all.take(i + 1).drop_last() =~= all.take(i as int));
        assert(all.take(i + 1).last() == lines@[i as int]@);
        if let Some((key, value)) = parse_env_line(lines[i].as_str()) {
            proof {
                lemma_env_filed(env@, key@, value);
            }
            env.insert(key, value);
        }
        i += 1;
    }
    assert(all.take(i as int) =~= all);
    env
}

impl AppSpecView {
    /// Where the environment file of the app is.
    pub open spec fn env_path(self) -> Option<Seq<char>> {
        match self.env_file {
            Some(f) => Some(joined(self.cwd, f)),
            None => None,
        }
    }
}

/// Where the environment file of the app is, where it has one.
pub fn env_file_path(app: &AppSpec) -> (r: Option<String>)
    ensures
        crate::text::opt_text(r) == app@.env_path(),
{
    match &app.env_file {
        Some(f) => Some(join_path(app.cwd.as_str(), f.as_str())),
        None => None,
    }
}

/// The variables of `base` overridden by those of `over`, one after the other.
pub open spec fn overlaid(
    base: Seq<(Seq<char>, Seq<char>)>,
    over: Seq<(Seq<char>, Seq<char>)>,
) -> Seq<(Seq<char>, Seq<char>)>
    decreases over.len(),
{
    if over.len() == 0 {
        base
    } else {
        filed(overlaid(base, over.drop_last()), over.last().0, over.last().1)
    }
}

/// The environment of an app, given the text of its environment file.
pub open spec fn app_env(app: AppSpecView, file: Option<Seq<char>>) -> Seq<
    (Seq<char>, Seq<char>),
> {
    let base = match file {
        Some(text) => env_of_text(text),
        None => Seq::empty(),
    };
    overlaid(base, app.env)
}

/// The environment of an app, given the text of its environment file, where it
/// has one.
pub fn build_app_env(app: &AppSpec, file: Option<&str>) -> (r: NameMap<String>)
    ensures
        env_view(r) == app_env(app@, crate::config::opt_str(file)),
        distinct(r@),
{
    let mut env: NameMap<String> = match file {
        Some(text) => load_env_file(text),
        None => NameMap::new(),
    };
    let ghost base = env_view(env);
    proof {
        if file is None {
            assert(base =~= Seq::<(Seq<char>, Seq<char>)>::empty());
        }
    }
    let n = app.env.len();
    let ghost over = env_view(app.env);
    let mut i: usize = 0;
    assert(over.take(0).len() == 0);
    while i < n
        invariant
            n == app.env@.len(),
            i <= n,
            over == env_view(app.env),
            env_view(env) == overlaid(base, over.take(i as int)),
            distinct(env@),
        decreases n - i,
    {
        let key = app.env.name_at(i).clone();
        let value = app.env.value_at(i).clone();
        assert(over.take(i + 1).drop_last() =~= over.take(i as int));
        assert(over.take(i + 1).last() == (key@, value@));
        proof {
            lemma_env_filed(env@, key@, value);
        }
        env.insert(key, value);
        i += 1;
    }
    assert(over.take(i as int) =~= over);
    env
}

/// A variable that the app's own configuration sets has the value set there;
/// any other has the value of the environment file.
pub proof fn law_inline_env_wins(
    app: AppSpecView,
    file: Option<Seq<char>>,
    key: Seq<char>,
)
    requires
        distinct(app.env),
    ensures
        lookup(app_env(app, file), key) == match lookup(app.env, key) {
            Some(v) => Some(v),
            None => lookup(app_env(AppSpecView { env: Seq::empty(), ..app }, file), key),
        },
{
    let base = match file {
        Some(text) => env_of_text(text),
        None => Seq::empty(),
    };
    lemma_overlaid(base, app.env, key);
}

proof fn lemma_overlaid(
    base: Seq<(Seq<char>, Seq<char>)>,
    over: Seq<(Seq<char>, Seq<char>)>,
    key: Seq<char>,
)
    requires
        distinct(over),
    ensures
        lookup(overlaid(base, over), key) == match lookup(over, key) {
            Some(v) => Some(v),
            None => lookup(base, key),
        },
    decreases over.len(),
{
    lemma_position(over, key);
    if over.len() > 0 {
        let front = over.drop_last();
        let last = over.last();
        assert(distinct(front)) by {
            assert forall|i: int, j: int| 0 <= i < j < front.len() implies (#[trigger] front[i]).0
                != (#[trigger] front[j]).0 by {
                assert(front[i] == over[i] && front[j] == over[j]);
            }
        }
        lemma_overlaid(base, front, key);
        lemma_filed(overlaid(base, front), last.0, last.1, key);
        lemma_position(front, key);
        if last.0 == key {
            assert forall|j: int| 0 <= j < over.len() - 1 implies (#[trigger] over[j]).0 != key by {
                assert(over[j].0 != over[over.len() - 1].0);
            }
            lemma_position_is(over, key, over.len() - 1);
        } else {
            let p = position(front, key);
            assert forall|j: int| 0 <= j < p implies (#[trigger] over[j]).0 != key by {
                assert(over[j] == front[j]);
            }
            if p < front.len() {
                assert(over[p] == front[p]);
                lemma_position_is(over, key, p);
            } else {
                lemma_position_is(over, key, over.len() as int);
            }
        }
    }
}

/// A line of an environment file sets the variable before its first equals sign
/// to what stands behind it, without the whitespace around either. Blank lines,
/// comments and lines without a name or an equals sign set nothing.
pub proof fn law_environment_lines(key: Seq<char>, value: Seq<char>, line: Seq<char>)
    requires
        key.len() > 0,
        trim(key) == key,
        key[0] != '#',
        forall|i: int| 0 <= i < key.len() ==> key[i] != '=',
        value.len() > 0,
        trim(value) == value,
    ensures
        env_line(key + seq!['='] + value) == Some((key, value)),
        env_line(seq!['#'] + key + seq!['='] + value) is None,
        env_line(key) is None,
        trim(line).len() == 0 ==> env_line(line) is None,
{
    reveal_strlit("#");
    crate::text::law_trim_takes_whitespace_off(key);
    crate::text::law_trim_takes_whitespace_off(value);
    crate::text::law_cut_at_the_first(key, '=', value);
    let s = key + seq!['='] + value;
    assert(s[0] == key[0] && s.last() == value.last());
    lemma_trimmed(s);
    assert(s.take(1) =~= seq![key[0]]);
    assert(key.take(1) =~= seq![key[0]]);
    assert("#"@ =~= seq!['#']);
    assert(seq![key[0]][0] != seq!['#'][0]);
    let c = seq!['#'] + key + seq!['='] + value;
    assert(c[0] == '#' && c.last() == value.last());
    lemma_trimmed(c);
    assert(c.take(1) =~= seq!['#']);
}

proof fn lemma_trimmed(s: Seq<char>)
    requires
        s.len() > 0,
        !crate::text::is_whitespace(s[0]),
        !crate::text::is_whitespace(s.last()),
    ensures
        trim(s) == s,
{
}

/// Of the lines of an environment file that set a variable, the last one counts;
/// a variable that no line sets is not set.
pub proof fn law_later_lines_win(lines: Seq<Seq<char>>, line: Seq<char>, key: Seq<char>)
    ensures
        lookup(env_of_lines(lines.push(line)), key) == match env_line(line) {
            Some((k, v)) => if k == key {
                Some(v)
            } else {
                lookup(env_of_lines(lines), key)
            },
            None => lookup(env_of_lines(lines), key),
        },
        lookup(env_of_lines(Seq::empty()), key) is None,
{
    assert(lines.push(line).drop_last() =~= lines);
    if let Some((k, v)) = env_line(line) {
        lemma_filed(env_of_lines(lines), k, v, key);
    }
    lemma_position(env_of_lines(Seq::empty()), key);
}

/// The environment file of an app is looked for in the directory of the app; and
/// its variables are those that the app gets, besides its own.
pub proof fn law_environment_files(app: AppSpecView, text: Seq<char>, key: Seq<char>)
    requires
        app.env.len() == 0,
    ensures
        app.env_path() == match app.env_file {
            Some(file) => Some(joined(app.cwd, file)),
            None => None,
        },
        lookup(app_env(app, Some(text)), key) == lookup(env_of_lines(line_seq(text)), key),
        lookup(app_env(app, None), key) is None,
{
    lemma_position(app_env(app, None), key);
}

/// Whitespace around a line, its key or its value is no part of them.
pub proof fn law_whitespace_in_environment_lines(
    key: Seq<char>,
    value: Seq<char>,
    a: Seq<char>,
    b: Seq<char>,
    c: Seq<char>,
    d: Seq<char>,
)
    requires
        key.len() > 0,
        trim(key) == key,
        key[0] != '#',
        forall|i: int| 0 <= i < key.len() ==> key[i] != '=',
        value.len() > 0,
        trim(value) == value,
        crate::text::blank(a) && crate::text::blank(b),
        crate::text::blank(c) && crate::text::blank(d),
    ensures
        env_line(a + (key + b + seq!['='] + (c + value)) + d) == Some((key, value)),
{
    reveal_strlit("#");
    crate::text::law_trim_takes_whitespace_off(key);
    crate::text::law_trim_takes_whitespace_off(value);
    let front = key + b;
    let back = c + value;
    let s = front + seq!['='] + back;
    assert(s[0] == key[0] && s.last() == value.last());
    crate::text::law_whitespace_around_is_trimmed(a, s, d);
    assert forall|i: int| 0 <= i < front.len() implies front[i] != '=' by {
        if i < key.len() {
            assert(front[i] == key[i]);
        } else {
            assert(front[i] == b[i - key.len()]);
            assert(crate::text::is_whitespace(b[i - key.len()]));
        }
    }
    crate::text::law_cut_at_the_first(front, '=', back);
    assert(s.take(1) =~= seq![key[0]]);
    assert("#"@ =~= seq!['#']);
    assert(seq![key[0]][0] != seq!['#'][0]);
    let none = Seq::<char>::empty();
    crate::text::law_whitespace_around_is_trimmed(none, key, b);
    crate::text::law_whitespace_around_is_trimmed(c, value, none);
    assert(none + key + b =~= front);
    assert(c + value + none =~= back);
}

/// A line that assigns to no name is none.
pub proof fn law_values_need_a_name(value: Seq<char>)
    requires
        value.len() > 0,
        !crate::text::is_whitespace(value.last()),
    ensures
        env_line(seq!['='] + value) is None,
{
    let s = seq!['='] + value;
    let none = Seq::<char>::empty();
    assert(s.last() == value.last());
    lemma_trimmed(s);
    crate::text::law_cut_at_the_first(none, '=', value);
    assert(none + seq!['='] + value =~= s);
}

} // verus!
