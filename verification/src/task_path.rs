//! Task paths: the string addresses of tasks.
//!
//! A task path is written `[namespace]:name[.property]` or `name[.property]`.
//! A leading colon with no namespace identifier marks a built-in task.
//! Identifiers are Unicode letters and hyphens.

use vstd::prelude::*;
use vstd::string::*;

use crate::errors::WorkbenchError;

verus! {

/// What `char::is_alphabetic` returns: the Unicode letter test, a function of
/// the character alone.
pub uninterp spec fn is_letter(c: char) -> bool;

/// Relies on `char::is_alphabetic`: the result depends on the character alone.
#[verifier::external_body]
fn letter(c: char) -> (r: bool)
    ensures
        r == is_letter(c),
{
    c.is_alphabetic()
}

/// A character that may appear in a task-path identifier.
pub open spec fn is_ident_char(c: char) -> bool {
    is_letter(c) || c == '-'
}

pub open spec fn all_ident_chars(s: Seq<char>) -> bool {
    forall|i: int| 0 <= i < s.len() ==> is_ident_char(#[trigger] s[i])
}

/// A non-empty run of identifier characters.
pub open spec fn is_ident(s: Seq<char>) -> bool {
    s.len() > 0 && all_ident_chars(s)
}

fn ident_char(c: char) -> (r: bool)
    ensures
        r == is_ident_char(c),
{
    letter(c) || c == '-'
}

pub open spec fn has_char(s: Seq<char>, c: char) -> bool {
    exists|i: int| 0 <= i < s.len() && s[i] == c
}

/// The index of the first occurrence of `c` in `s`, or `s.len()` if absent.
pub open spec fn find_char(s: Seq<char>, c: char) -> int
    decreases s.len(),
{
    if s.len() == 0 {
        0
    } else if s[0] == c {
        0
    } else {
        1 + find_char(s.skip(1), c)
    }
}

proof fn lemma_find_char(s: Seq<char>, c: char)
    ensures
        0 <= find_char(s, c) <= s.len(),
        find_char(s, c) < s.len() ==> s[find_char(s, c)] == c,
        forall|i: int| 0 <= i < find_char(s, c) ==> s[i] != c,
        has_char(s, c) <==> find_char(s, c) < s.len(),
    decreases s.len(),
{
    if s.len() == 0 {
    } else if s[0] == c {
    } else {
        let t = s.skip(1);
        lemma_find_char(t, c);
        let f = find_char(s, c);
        assert(f == 1 + find_char(t, c));
        assert forall|i: int| 0 <= i < f implies s[i] != c by {
            if i > 0 {
                assert(t[i - 1] == s[i]);
            }
        }
        if f < s.len() {
            assert(s[f] == t[f - 1]);
        }
        if has_char(s, c) {
            let w = choose|i: int| 0 <= i < s.len() && s[i] == c;
            assert(w > 0);
            assert(t[w - 1] == c);
            assert(has_char(t, c));
        }
        if has_char(t, c) {
            let w = choose|i: int| 0 <= i < t.len() && t[i] == c;
            assert(s[w + 1] == c);
            assert(has_char(s, c));
        }
    }
}

/// The first index with character `c` determines `find_char`.
proof fn lemma_find_char_is(s: Seq<char>, c: char, i: int)
    requires
        0 <= i <= s.len(),
        forall|k: int| 0 <= k < i ==> s[k] != c,
        i < s.len() ==> s[i] == c,
    ensures
        find_char(s, c) == i,
{
    lemma_find_char(s, c);
    let f = find_char(s, c);
    if i < s.len() {
        assert(has_char(s, c));
    }
    if f < i {
        assert(s[f] == c);
    }
    if i < f {
        assert(s[i] != c);
    }
}

/// The mathematical form of a task path.
pub struct TaskPathView {
    pub namespace: Option<Seq<char>>,
    pub built_in: bool,
    pub name: Seq<char>,
    pub property: Option<Seq<char>>,
}

impl TaskPathView {
    /// Well-formed: every stored part is a non-empty identifier, and a
    /// built-in path carries no namespace.
    pub open spec fn wf(self) -> bool {
        &&& match self.namespace {
            Some(n) => is_ident(n) && !self.built_in,
            None => true,
        }
        &&& is_ident(self.name)
        &&& match self.property {
            Some(p) => is_ident(p),
            None => true,
        }
    }
}

/// The address of a task: an optional namespace, a built-in marker, a name,
/// and an optional property suffix.
#[derive(Debug, Clone)]
pub struct TaskPath {
    pub namespace: Option<String>,
    pub built_in: bool,
    pub name: String,
    pub property: Option<String>,
}

impl View for TaskPath {
    type V = TaskPathView;

    open spec fn view(&self) -> TaskPathView {
        TaskPathView {
            namespace: self.namespace.deep_view(),
            built_in: self.built_in,
            name: self.name@,
            property: self.property.deep_view(),
        }
    }
}

impl PartialEq for TaskPath {
    fn eq(&self, other: &Self) -> (r: bool) {
        let namespace_eq = match (&self.namespace, &other.namespace) {
            (Some(a), Some(b)) => a.eq(b),
            (None, None) => true,
            _ => false,
        };
        let property_eq = match (&self.property, &other.property) {
            (Some(a), Some(b)) => a.eq(b),
            (None, None) => true,
            _ => false,
        };
        let r = namespace_eq && self.built_in == other.built_in && self.name.eq(&other.name)
            && property_eq;
        proof {
            assert(namespace_eq == (self@.namespace == other@.namespace));
            assert(property_eq == (self@.property == other@.property));
            if r {
                assert(self@ == other@);
            }
        }
        r
    }
}

impl vstd::std_specs::cmp::PartialEqSpecImpl for TaskPath {
    open spec fn obeys_eq_spec() -> bool {
        true
    }

    open spec fn eq_spec(&self, other: &Self) -> bool {
        self@ == other@
    }
}

/// Copy a task path field by field; unlike the derived `Clone`, its result is
/// known to equal the original.
pub fn clone_path(p: &TaskPath) -> (r: TaskPath)
    ensures
        r == *p,
{
    TaskPath {
        namespace: match &p.namespace {
            Some(n) => Some(n.clone()),
            None => None,
        },
        built_in: p.built_in,
        name: p.name.clone(),
        property: match &p.property {
            Some(pr) => Some(pr.clone()),
            None => None,
        },
    }
}

/// Whether `s` matches the task-path grammar
/// `^(namespace ':')? name ('.' property)?$`, where the namespace may be
/// empty (the built-in marker), the name and property are non-empty
/// identifiers, and identifiers hold only letters and hyphens.
pub open spec fn task_path_valid(s: Seq<char>) -> bool {
    let rest = if has_char(s, ':') {
        s.subrange(find_char(s, ':') + 1, s.len() as int)
    } else {
        s
    };
    let namespace_ok = if has_char(s, ':') {
        all_ident_chars(s.subrange(0, find_char(s, ':')))
    } else {
        true
    };
    let name = if has_char(rest, '.') {
        rest.subrange(0, find_char(rest, '.'))
    } else {
        rest
    };
    let property_ok = if has_char(rest, '.') {
        is_ident(rest.subrange(find_char(rest, '.') + 1, rest.len() as int))
    } else {
        true
    };
    namespace_ok && is_ident(name) && property_ok
}

/// The decomposition of a valid task-path string.
pub open spec fn spec_parse(s: Seq<char>) -> TaskPathView {
    let has_c = has_char(s, ':');
    let c = find_char(s, ':');
    let rest = if has_c {
        s.subrange(c + 1, s.len() as int)
    } else {
        s
    };
    let has_d = has_char(rest, '.');
    let d = find_char(rest, '.');
    TaskPathView {
        namespace: if has_c && c > 0 {
            Some(s.subrange(0, c))
        } else {
            None
        },
        built_in: has_c && c == 0,
        name: if has_d {
            rest.subrange(0, d)
        } else {
            rest
        },
        property: if has_d {
            Some(rest.subrange(d + 1, rest.len() as int))
        } else {
            None
        },
    }
}

/// The rendering of a task path: `namespace ':'` when a namespace is set, a
/// bare `':'` when built-in, then the name, then `'.' property` when set.
pub open spec fn spec_display(p: TaskPathView) -> Seq<char> {
    (match p.namespace {
        Some(n) => n + seq![':'],
        None => if p.built_in {
            seq![':']
        } else {
            Seq::<char>::empty()
        },
    }) + p.name + (match p.property {
        Some(pr) => seq!['.'] + pr,
        None => Seq::<char>::empty(),
    })
}

/// Rendering inverts parsing: a valid task-path string is reproduced exactly
/// by displaying its parse.
pub proof fn lemma_parse_display_round_trip(s: Seq<char>)
    requires
        task_path_valid(s),
    ensures
        spec_display(spec_parse(s)) == s,
{
    let p = spec_parse(s);
    lemma_find_char(s, ':');
    if has_char(s, ':') {
        let c = find_char(s, ':');
        let rest = s.subrange(c + 1, s.len() as int);
        lemma_find_char(rest, '.');
        let head: Seq<char> = match p.namespace {
            Some(n) => n + seq![':'],
            None => seq![':'],
        };
        assert(head =~= s.subrange(0, c + 1));
        if has_char(rest, '.') {
            let d = find_char(rest, '.');
            assert(p.name + (seq!['.'] + rest.subrange(d + 1, rest.len() as int)) =~= rest);
        }
        assert(spec_display(p) =~= s);
    } else {
        lemma_find_char(s, '.');
        if has_char(s, '.') {
            let d = find_char(s, '.');
            assert(p.name + (seq!['.'] + s.subrange(d + 1, s.len() as int)) =~= s);
        }
        assert(spec_display(p) =~= s);
    }
}

/// Every identifier range check used by the parser: whether the characters of
/// `text` in `[from, to)` are all identifier characters.
fn ident_range(text: &str, from: usize, to: usize) -> (r: bool)
    requires
        from <= to <= text@.len(),
    ensures
        r == all_ident_chars(text@.subrange(from as int, to as int)),
{
    let ghost part = text@.subrange(from as int, to as int);
    let mut k = from;
    while k < to
        invariant
            from <= k <= to <= text@.len(),
            part == text@.subrange(from as int, to as int),
            forall|j: int| 0 <= j < k - from ==> is_ident_char(#[trigger] part[j]),
        decreases to - k,
    {
        let c = text.get_char(k);
        if !ident_char(c) {
            assert(part[k - from] == c);
            return false;
        }
        assert(part[k - from] == c);
        k += 1;
    }
    true
}

impl TaskPath {
    /// Parse a task-path string.  Returns `InvalidTaskPath` exactly when the
    /// string does not match the grammar; otherwise the unique decomposition.
    pub fn parse(text: &str) -> (r: Result<TaskPath, WorkbenchError>)
        ensures
            r is Ok <==> task_path_valid(text@),
            r matches Ok(p) ==> p@ == spec_parse(text@) && p@.wf(),
            r matches Err(e) ==> e matches WorkbenchError::InvalidTaskPath(t) && t@ == text@,
    {
        let ghost s = text@;
        let n = text.unicode_len();

        // The first colon, or n if there is none.
        let mut ci: usize = 0;
        while ci < n && text.get_char(ci) != ':'
            invariant
                0 <= ci <= n,
                n == s.len(),
                s == text@,
                forall|k: int| 0 <= k < ci ==> s[k] != ':',
            decreases n - ci,
        {
            ci += 1;
        }
        proof {
            lemma_find_char_is(s, ':', ci as int);
            lemma_find_char(s, ':');
        }
        let has_colon = ci < n;
        let rest_start = if has_colon {
            ci + 1
        } else {
            0
        };
        let ghost rest = if has_colon {
            s.subrange(ci + 1, n as int)
        } else {
            s
        };

        // The first dot at or after the start of the name, or n if none.
        let mut di: usize = rest_start;
        while di < n && text.get_char(di) != '.'
            invariant
                rest_start <= di <= n,
                n == s.len(),
                s == text@,
                forall|k: int| rest_start <= k < di ==> s[k] != '.',
            decreases n - di,
        {
            di += 1;
        }
        proof {
            assert forall|j: int| 0 <= j < di - rest_start implies rest[j] != '.' by {
                assert(rest[j] == s[rest_start + j]);
            }
            if di < n {
                assert(rest[di - rest_start] == s[di as int]);
            }
            lemma_find_char_is(rest, '.', di - rest_start);
            lemma_find_char(rest, '.');
        }
        let has_dot = di < n;

        // Validate the namespace characters.
        if has_colon {
            if !ident_range(text, 0, ci) {
                return Err(WorkbenchError::InvalidTaskPath(text.to_owned()));
            }
        }

        // Validate the name: non-empty and identifier characters only.
        if di == rest_start {
            assert(!is_ident(if has_char(rest, '.') {
                rest.subrange(0, find_char(rest, '.'))
            } else {
                rest
            }));
            return Err(WorkbenchError::InvalidTaskPath(text.to_owned()));
        }
        if !ident_range(text, rest_start, di) {
            proof {
                let name = if has_char(rest, '.') {
                    rest.subrange(0, find_char(rest, '.'))
                } else {
                    rest
                };
                assert(name =~= s.subrange(rest_start as int, di as int));
            }
            return Err(WorkbenchError::InvalidTaskPath(text.to_owned()));
        }

        // Validate the property: non-empty and identifier characters only.
        if has_dot {
            if di + 1 == n {
                return Err(WorkbenchError::InvalidTaskPath(text.to_owned()));
            }
            if !ident_range(text, di + 1, n) {
                proof {
                    assert(rest.subrange(find_char(rest, '.') + 1, rest.len() as int) =~= s
                        .subrange(di + 1, n as int));
                }
                return Err(WorkbenchError::InvalidTaskPath(text.to_owned()));
            }
        }

        let namespace = if has_colon && ci > 0 {
            Some(text.substring_char(0, ci).to_owned())
        } else {
            None
        };
        let built_in = has_colon && ci == 0;
        let name = text.substring_char(rest_start, di).to_owned();
        let property = if has_dot {
            Some(text.substring_char(di + 1, n).to_owned())
        } else {
            None
        };
        let path = TaskPath { namespace, built_in, name, property };
        proof {
            let sp = spec_parse(s);
            assert(path@.name =~= sp.name);
            if has_dot {
                assert(path@.property->0 =~= sp.property->0);
            }
            assert(task_path_valid(s));
            assert(path@ == sp);
        }
        Ok(path)
    }

    /// Render the path back to its string form; the inverse of `parse`.
    pub fn display(&self) -> (r: String)
        ensures
            r@ == spec_display(self@),
    {
        proof {
            reveal_strlit(":");
            reveal_strlit(".");
        }
        let mut out = String::new();
        match &self.namespace {
            Some(ns) => {
                out.append(ns.as_str());
                out.append(":");
            },
            None => {
                if self.built_in {
                    out.append(":");
                }
            },
        }
        out.append(self.name.as_str());
        match &self.property {
            Some(p) => {
                out.append(".");
                out.append(p.as_str());
            },
            None => {},
        }
        proof {
            assert(":"@ =~= seq![':']);
            assert("."@ =~= seq!['.']);
            assert(out@ =~= spec_display(self@));
        }
        out
    }
}

} // verus!
