use vstd::prelude::*;

use crate::environment::Environment;
use crate::error::Error;
use crate::textutil::{push_char, str_eq};

verus! {

broadcast use vstd::string::group_string_axioms;

/// The characters a file-safe package name may consist of:
/// ASCII letters, digits, `-` and `_`.
pub open spec fn is_safe_char(c: char) -> bool {
    ('a' <= c && c <= 'z') || ('A' <= c && c <= 'Z') || ('0' <= c && c <= '9') || c == '-' || c
        == '_'
}

/// Whether every character of the sequence is file-safe.
pub open spec fn seq_all_safe(s: Seq<char>) -> bool {
    forall|i: int| 0 <= i < s.len() ==> is_safe_char(#[trigger] s[i])
}

/// What one character of a package name contributes to its file-safe form:
/// `@` vanishes, `/` becomes `-`, everything else stays.
pub open spec fn filesafe_contrib(c: char) -> Seq<char> {
    if c == '@' {
        Seq::empty()
    } else if c == '/' {
        seq!['-']
    } else {
        seq![c]
    }
}

/// A package name with `@` stripped and `/` mapped to `-`.
pub open spec fn filesafe_map(s: Seq<char>) -> Seq<char>
    decreases s.len(),
{
    if s.len() == 0 {
        Seq::empty()
    } else {
        filesafe_map(s.drop_last()) + filesafe_contrib(s.last())
    }
}

/// The package name as a file-safe identifier: `@` stripped, `/` mapped
/// to `-`. A remaining character outside `[A-Za-z0-9_-]` is an error,
/// and so is a name whose characters all vanish in the mapping: the
/// result always holds at least one safe character.
#[verifier::loop_isolation(false)]
pub fn filesafe_package_name(name: &str) -> (r: Result<String, Error>)
    ensures
        match r {
            Ok(o) => o@ == filesafe_map(name@) && seq_all_safe(filesafe_map(name@))
                && filesafe_map(name@).len() > 0,
            Err(e) => (!seq_all_safe(filesafe_map(name@)) || filesafe_map(name@).len() == 0) && (
            e matches Error::InvalidPackageName(n) && n@ == name@),
        },
{
    let n = name.unicode_len();
    let mut out = String::new();
    let mut ok = true;
    let mut i: usize = 0;
    while i < n
        invariant
            i <= n,
            out@ == filesafe_map(name@.take(i as int)),
            ok == seq_all_safe(filesafe_map(name@.take(i as int))),
        decreases n - i,
    {
        let c = name.get_char(i);
        proof {
            assert(name@.take(i + 1 as int).drop_last() =~= name@.take(i as int));
            assert(name@.take(i + 1 as int).last() == c);
        }
        let ghost prev = filesafe_map(name@.take(i as int));
        if c == '@' {
            proof {
                assert(filesafe_map(name@.take(i + 1 as int)) =~= prev);
            }
        } else if c == '/' {
            push_char(&mut out, '-');
            proof {
                assert(seq_all_safe(prev + seq!['-']) == seq_all_safe(prev)) by {
                    if seq_all_safe(prev) {
                        assert forall|j: int| 0 <= j < (prev + seq!['-']).len() implies is_safe_char(
                            (prev + seq!['-'])[j],
                        ) by {
                            if j < prev.len() {
                                assert(is_safe_char(prev[j]));
                            }
                        }
                    } else {
                        let j = choose|j: int| 0 <= j < prev.len() && !is_safe_char(#[trigger] prev[j]);
                        assert((prev + seq!['-'])[j] == prev[j]);
                    }
                }
            }
        } else {
            push_char(&mut out, c);
            let u = c as u32;
            let safe = (97 <= u && u <= 122) || (65 <= u && u <= 90) || (48 <= u && u <= 57) || u
                == 45 || u == 95;
            proof {
                assert(safe == is_safe_char(c));
                assert(seq_all_safe(prev + seq![c]) == (seq_all_safe(prev) && is_safe_char(c))) by {
                    if seq_all_safe(prev) && is_safe_char(c) {
                        assert forall|j: int| 0 <= j < (prev + seq![c]).len() implies is_safe_char(
                            (prev + seq![c])[j],
                        ) by {
                            if j < prev.len() {
                                assert(is_safe_char(prev[j]));
                            }
                        }
                    } else if !seq_all_safe(prev) {
                        let j = choose|j: int| 0 <= j < prev.len() && !is_safe_char(#[trigger] prev[j]);
                        assert((prev + seq![c])[j] == prev[j]);
                    } else {
                        assert((prev + seq![c])[prev.len() as int] == c);
                    }
                }
            }
            if !safe {
                ok = false;
            }
        }
        i += 1;
    }
    proof {
        assert(name@.take(n as int) =~= name@);
    }
    if ok && !out.as_str().is_empty() {
        Ok(out)
    } else {
        Err(Error::InvalidPackageName(name.to_owned()))
    }
}

/// Exactly where the file-safe mapping is accepted — every mapped
/// character safe and at least one of them — the result holds one or
/// more characters, all from the safe alphabet.
pub proof fn lemma_filesafe_result_shape(name: Seq<char>)
    ensures
        (seq_all_safe(filesafe_map(name)) && filesafe_map(name).len() > 0) ==> (filesafe_map(
            name,
        ).len() >= 1 && forall|i: int| 0 <= i < filesafe_map(name).len() ==> is_safe_char(
            #[trigger] filesafe_map(name)[i],
        )),
{
}

/// The characters that may appear between `${` and `}` in a glob template:
/// ASCII letters, `_`, `.` and space.
pub open spec fn is_tpl_char(c: char) -> bool {
    ('a' <= c && c <= 'z') || ('A' <= c && c <= 'Z') || c == '_' || c == '.' || c == ' '
}

/// The first position at or after `k` holding no template character
/// (or the end of the string).
pub open spec fn scan_tpl(s: Seq<char>, k: int) -> int
    recommends
        0 <= k <= s.len(),
    decreases s.len() - k,
{
    if k >= s.len() || !is_tpl_char(s[k]) {
        k
    } else {
        scan_tpl(s, k + 1)
    }
}

/// Whether a `${name}` reference begins at the head of the string.
pub open spec fn tpl_match_at0(s: Seq<char>) -> bool {
    &&& s.len() >= 2
    &&& s[0] == '$'
    &&& s[1] == '{'
    &&& scan_tpl(s, 2) > 2
    &&& scan_tpl(s, 2) < s.len()
    &&& s[scan_tpl(s, 2)] == '}'
}

/// The sequence without leading spaces.
pub open spec fn trim_front(s: Seq<char>) -> Seq<char>
    decreases s.len(),
{
    if s.len() > 0 && s[0] == ' ' {
        trim_front(s.drop_first())
    } else {
        s
    }
}

/// The sequence without trailing spaces.
pub open spec fn trim_back(s: Seq<char>) -> Seq<char>
    decreases s.len(),
{
    if s.len() > 0 && s.last() == ' ' {
        trim_back(s.drop_last())
    } else {
        s
    }
}

/// The sequence without leading or trailing spaces.
pub open spec fn trim_spaces(s: Seq<char>) -> Seq<char> {
    trim_back(trim_front(s))
}

/// The value of the first environment entry with the given name, if any.
pub open spec fn env_lookup(vars: Seq<(String, String)>, name: Seq<char>) -> Option<Seq<char>>
    decreases vars.len(),
{
    if vars.len() == 0 {
        None
    } else if vars[0].0@ == name {
        Some(vars[0].1@)
    } else {
        env_lookup(vars.drop_first(), name)
    }
}

/// What expanding a template comes to: the expanded text, or the first
/// failing variable reference.
pub enum TemplateOutcome {
    Done(Seq<char>),
    UnknownVar(Seq<char>),
    MissingEnv(Seq<char>),
}

/// What one `${...}` reference (its raw inner text) stands for.
pub open spec fn var_replacement(
    raw: Seq<char>,
    environment: Environment,
    vars: Seq<(String, String)>,
) -> TemplateOutcome {
    let v = trim_spaces(raw);
    if v == "arch"@ {
        TemplateOutcome::Done(environment.architecture.node_name())
    } else if v == "platform"@ {
        TemplateOutcome::Done(environment.platform.node_name())
    } else if v.len() >= 4 && v.subrange(0, 4) == "env."@ {
        match env_lookup(vars, v.skip(4)) {
            Some(x) => TemplateOutcome::Done(x),
            None => TemplateOutcome::MissingEnv(v.skip(4)),
        }
    } else {
        TemplateOutcome::UnknownVar(v)
    }
}

/// The template scanned left to right: each `${name}` reference replaced
/// by what it stands for, every other character kept.
pub open spec fn spec_expand(
    s: Seq<char>,
    environment: Environment,
    vars: Seq<(String, String)>,
) -> TemplateOutcome
    decreases s.len(),
{
    if s.len() == 0 {
        TemplateOutcome::Done(Seq::empty())
    } else if tpl_match_at0(s) {
        let k = scan_tpl(s, 2);
        match var_replacement(s.subrange(2, k), environment, vars) {
            TemplateOutcome::Done(rep) => match spec_expand(s.skip(k + 1), environment, vars) {
                TemplateOutcome::Done(rest) => TemplateOutcome::Done(rep + rest),
                e => e,
            },
            e => e,
        }
    } else {
        match spec_expand(s.drop_first(), environment, vars) {
            TemplateOutcome::Done(rest) => TemplateOutcome::Done(seq![s[0]] + rest),
            e => e,
        }
    }
}

proof fn lemma_scan_tpl_at(s: Seq<char>, a: int, m: int)
    requires
        0 <= a <= m <= s.len(),
        forall|j: int| a <= j < m ==> is_tpl_char(#[trigger] s[j]),
        m == s.len() || !is_tpl_char(s[m]),
    ensures
        scan_tpl(s, a) == m,
    decreases m - a,
{
    if a < m {
        lemma_scan_tpl_at(s, a + 1, m);
    }
}

proof fn lemma_trim_front_at(s: Seq<char>, a: int)
    requires
        0 <= a <= s.len(),
        forall|j: int| 0 <= j < a ==> #[trigger] s[j] == ' ',
        a < s.len() ==> s[a] != ' ',
    ensures
        trim_front(s) == s.skip(a),
    decreases a,
{
    if a == 0 {
        assert(s.skip(0) =~= s);
    } else {
        lemma_trim_front_at(s.drop_first(), a - 1);
        assert(s.drop_first().skip(a - 1) =~= s.skip(a));
    }
}

proof fn lemma_trim_back_at(s: Seq<char>, b: int)
    requires
        0 <= b <= s.len(),
        forall|j: int| b <= j < s.len() ==> #[trigger] s[j] == ' ',
        b > 0 ==> s[b - 1] != ' ',
    ensures
        trim_back(s) == s.take(b),
    decreases s.len() - b,
{
    if b == s.len() {
        if s.len() > 0 && s.last() == ' ' {
            assert(s[b - 1] == ' ');
        }
        assert(s.take(b) =~= s);
    } else {
        lemma_trim_back_at(s.drop_last(), b);
        assert(s.drop_last().take(b) =~= s.take(b));
    }
}

proof fn lemma_env_lookup_at(vars: Seq<(String, String)>, name: Seq<char>, i: int)
    requires
        0 <= i < vars.len(),
        vars[i].0@ == name,
        forall|j: int| 0 <= j < i ==> #[trigger] vars[j].0@ != name,
    ensures
        env_lookup(vars, name) == Some(vars[i].1@),
    decreases i,
{
    if i > 0 {
        lemma_env_lookup_at(vars.drop_first(), name, i - 1);
    }
}

proof fn lemma_env_lookup_none(vars: Seq<(String, String)>, name: Seq<char>)
    requires
        forall|j: int| 0 <= j < vars.len() ==> #[trigger] vars[j].0@ != name,
    ensures
        env_lookup(vars, name) is None,
    decreases vars.len(),
{
    if vars.len() > 0 {
        lemma_env_lookup_none(vars.drop_first(), name);
    }
}

/// The first environment entry with the given name, if any.
#[verifier::loop_isolation(false)]
fn env_var_value<'a>(vars: &'a Vec<(String, String)>, name: &str) -> (r: Option<&'a String>)
    ensures
        match r {
            Some(v) => env_lookup(vars@, name@) == Some(v@),
            None => env_lookup(vars@, name@) is None,
        },
{
    let n = vars.len();
    let mut i: usize = 0;
    while i < n
        invariant
            i <= n,
            forall|j: int| 0 <= j < i ==> #[trigger] vars@[j].0@ != name@,
        decreases n - i,
    {
        if str_eq(vars[i].0.as_str(), name) {
            proof {
                lemma_env_lookup_at(vars@, name@, i as int);
            }
            return Some(&vars[i].1);
        }
        i += 1;
    }
    proof {
        lemma_env_lookup_none(vars@, name@);
    }
    None
}

/// Whether the character may appear between `${` and `}`.
fn is_tpl_char_exec(c: char) -> (r: bool)
    ensures
        r == is_tpl_char(c),
{
    let u = c as u32;
    (97 <= u && u <= 122) || (65 <= u && u <= 90) || u == 95 || u == 46 || u == 32
}

/// Expands the template's tail, from character `i` on.
#[verifier::loop_isolation(false)]
fn expand_from(
    s: &str,
    i: usize,
    n: usize,
    environment: &Environment,
    vars: &Vec<(String, String)>,
) -> (r: Result<String, Error>)
    requires
        i <= n,
        n == s@.len(),
    ensures
        match r {
            Ok(o) => spec_expand(s@.skip(i as int), *environment, vars@) == TemplateOutcome::Done(
                o@,
            ),
            Err(e) => match e {
                Error::UnknownTemplateVariable(v) => spec_expand(s@.skip(i as int), *environment, vars@)
                    == TemplateOutcome::UnknownVar(v@),
                Error::MissingEnvironmentVariable(v) => spec_expand(
                    s@.skip(i as int),
                    *environment,
                    vars@,
                ) == TemplateOutcome::MissingEnv(v@),
                _ => false,
            },
        },
    decreases n - i,
{
    let ghost t = s@.skip(i as int);
    if i == n {
        proof {
            assert(t =~= Seq::<char>::empty());
        }
        return Ok(String::new());
    }
    proof {
        assert(t.len() == n - i);
        assert forall|j: int| 0 <= j < t.len() implies #[trigger] t[j] == s@[i + j] by {}
    }
    // Find the closing brace of a `${...}` reference beginning here, if any.
    let mut matched = false;
    let mut k: usize = 0;
    if s.get_char(i) == '$' && i + 1 < n && s.get_char(i + 1) == '{' {
        k = i + 2;
        while k < n && is_tpl_char_exec(s.get_char(k))
            invariant
                i + 2 <= k <= n,
                forall|j: int| i + 2 <= j < k ==> is_tpl_char(#[trigger] s@[j]),
            decreases n - k,
        {
            k += 1;
        }
        proof {
            assert forall|j: int| 2 <= j < k - i implies is_tpl_char(#[trigger] t[j]) by {
                assert(t[j] == s@[i + j]);
            }
            if (k as int) < n - i {
                assert(t[k - i as int] == s@[k as int]);
            }
            lemma_scan_tpl_at(t, 2, k - i as int);
        }
        if k > i + 2 && k < n && s.get_char(k) == '}' {
            matched = true;
        }
    }
    proof {
        assert(matched == tpl_match_at0(t));
    }
    if matched {
        // Trim the raw variable name.
        let mut a: usize = i + 2;
        let mut b: usize = k;
        while a < b && s.get_char(a) == ' '
            invariant
                i + 2 <= a <= b,
                b == k,
                forall|j: int| i + 2 <= j < a ==> #[trigger] s@[j] == ' ',
            decreases b - a,
        {
            a += 1;
        }
        while b > a && s.get_char(b - 1) == ' '
            invariant
                a <= b <= k,
                forall|j: int| b <= j < k ==> #[trigger] s@[j] == ' ',
            decreases b,
        {
            b -= 1;
        }
        let ghost raw = t.subrange(2, k - i as int);
        proof {
            assert forall|j: int| 0 <= j < raw.len() implies #[trigger] raw[j] == s@[i + 2 + j] by {
                assert(t[2 + j] == s@[i + 2 + j]);
            }
            lemma_trim_front_at(raw, a - (i + 2) as int);
            let fr = raw.skip(a - (i + 2) as int);
            assert forall|j: int| 0 <= j < fr.len() implies #[trigger] fr[j] == s@[a + j] by {
                assert(fr[j] == raw[a - (i + 2) + j]);
            }
            lemma_trim_back_at(fr, b - a as int);
            assert(trim_spaces(raw) =~= s@.subrange(a as int, b as int));
        }
        let var = s.substring_char(a, b);
        proof {
            assert(var@ == trim_spaces(raw));
        }
        // What the reference stands for.
        let replacement: String = if str_eq(var, "arch") {
            environment.architecture.to_node().to_owned()
        } else if str_eq(var, "platform") {
            environment.platform.to_node().to_owned()
        } else {
            let vn = var.unicode_len();
            let has_env_prefix = vn >= 4 && str_eq(var.substring_char(0, 4), "env.");
            proof {
                reveal_strlit("env.");
                assert("env."@.len() == 4);
            }
            if has_env_prefix {
                let ev_name = var.substring_char(4, vn);
                proof {
                    assert(ev_name@ =~= var@.skip(4));
                }
                match env_var_value(vars, ev_name) {
                    Some(v) => v.clone(),
                    None => {
                        return Err(Error::MissingEnvironmentVariable(ev_name.to_owned()));
                    },
                }
            } else {
                proof {
                    if vn >= 4 {
                        assert(var@.subrange(0, 4) != "env."@);
                    }
                }
                return Err(Error::UnknownTemplateVariable(var.to_owned()));
            }
        };
        proof {
            assert(s@.skip(k + 1 as int) =~= t.skip(k - i + 1 as int));
        }
        let rest = match expand_from(s, k + 1, n, environment, vars) {
            Ok(o) => o,
            Err(e) => {
                return Err(e);
            },
        };
        let mut out = replacement;
        out.append(rest.as_str());
        Ok(out)
    } else {
        let c = s.get_char(i);
        proof {
            assert(s@.skip(i + 1 as int) =~= t.drop_first());
            assert(t[0] == c);
        }
        let rest = match expand_from(s, i + 1, n, environment, vars) {
            Ok(o) => o,
            Err(e) => {
                return Err(e);
            },
        };
        let mut out = String::new();
        push_char(&mut out, c);
        out.append(rest.as_str());
        Ok(out)
    }
}

/// The glob string with every `${arch}`, `${platform}` and `${env.NAME}`
/// replaced from the target environment and the given environment variables;
/// any other `${name}` is an error.
pub fn fill_variable_template(
    template: &str,
    environment: &Environment,
    vars: &Vec<(String, String)>,
) -> (r: Result<String, Error>)
    ensures
        match r {
            Ok(o) => spec_expand(template@, *environment, vars@) == TemplateOutcome::Done(o@),
            Err(e) => match e {
                Error::UnknownTemplateVariable(v) => spec_expand(template@, *environment, vars@)
                    == TemplateOutcome::UnknownVar(v@),
                Error::MissingEnvironmentVariable(v) => spec_expand(template@, *environment, vars@)
                    == TemplateOutcome::MissingEnv(v@),
                _ => false,
            },
        },
{
    let n = template.unicode_len();
    let r = expand_from(template, 0, n, environment, vars);
    proof {
        assert(template@.skip(0) =~= template@);
    }
    r
}

/// Joining a relative path onto a root inserts one separator;
/// an absolute path stands alone.
pub open spec fn spec_path_join(root: Seq<char>, p: Seq<char>) -> Seq<char> {
    if p.len() > 0 && p[0] == '/' {
        p
    } else {
        root + "/"@ + p
    }
}

/// The path under the root, with one `/` between; an absolute path
/// stands alone.
pub fn path_join(root: &str, p: &str) -> (r: String)
    ensures
        r@ == spec_path_join(root@, p@),
{
    if p.unicode_len() > 0 && p.get_char(0) == '/' {
        p.to_owned()
    } else {
        let mut out = root.to_owned();
        out.append("/");
        out.append(p);
        out
    }
}

} // verus!
