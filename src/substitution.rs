//! Placeholder substitution: `${name}` is replaced by the value of the
//! variable `name`; placeholders of unknown variables stay as they are.

use vstd::prelude::*;
use vstd::string::StrSliceExecFns;
use vstd::string::StringExecFns;

verus! {

/// The value that a list of named entries gives a name: that of its first
/// entry with the name.
pub open spec fn lookup_value(vars: Seq<(String, String)>, name: Seq<char>) -> Option<String>
    decreases vars.len(),
{
    if vars.len() == 0 {
        None
    } else if vars[0].0@ == name {
        Some(vars[0].1)
    } else {
        lookup_value(vars.drop_first(), name)
    }
}

/// Whether `t` opens with `${` and `j` is the position of the first `}`
/// after it.
pub open spec fn closes_at(t: Seq<char>, j: int) -> bool {
    &&& 2 <= j < t.len()
    &&& t[0] == '$'
    &&& t[1] == '{'
    &&& t[j] == '}'
    &&& forall|k: int| 2 <= k < j ==> t[k] != '}'
}

/// Whether `t` opens with a placeholder whose variable is known.
pub open spec fn opens_known(t: Seq<char>, vars: Seq<(String, String)>) -> bool {
    exists|j: int| closes_at(t, j) && lookup_value(vars, t.subrange(2, j)) is Some
}

/// Single-pass substitution, left to right: a placeholder of a known
/// variable becomes the variable's value, which is not scanned again;
/// every other character is kept.
pub open spec fn substitute(t: Seq<char>, vars: Seq<(String, String)>) -> Seq<char>
    decreases t.len(),
{
    if t.len() == 0 {
        Seq::empty()
    } else if opens_known(t, vars) {
        let j = choose|j: int| closes_at(t, j) && lookup_value(vars, t.subrange(2, j)) is Some;
        lookup_value(vars, t.subrange(2, j))->0@ + substitute(t.skip(j + 1), vars)
    } else {
        seq![t[0]] + substitute(t.skip(1), vars)
    }
}

proof fn lemma_closes_unique(t: Seq<char>, a: int, b: int)
    requires
        closes_at(t, a),
        closes_at(t, b),
    ensures
        a == b,
{
    if a < b {
        assert(t[a] != '}');
    } else if b < a {
        assert(t[b] != '}');
    }
}

/// Looks a name up in a list of named entries.
pub fn find_value(vars: &Vec<(String, String)>, name: &str) -> (r: Option<String>)
    ensures
        r == lookup_value(vars@, name@),
{
    let key = String::from_str(name);
    let mut i: usize = 0;
    proof {
        assert(vars@.skip(0) =~= vars@);
    }
    while i < vars.len()
        invariant
            i <= vars@.len(),
            key@ == name@,
            lookup_value(vars@, name@) == lookup_value(vars@.skip(i as int), name@),
        decreases vars@.len() - i,
    {
        proof {
            assert(vars@.skip(i as int).drop_first() =~= vars@.skip(i + 1));
        }
        if vars[i].0 == key {
            return Some(vars[i].1.clone());
        }
        i = i + 1;
    }
    None
}

/// Replaces, in one pass, each placeholder `${name}` of a known variable by
/// its value; unknown placeholders are left untouched.
pub fn replace_variables(input_string: &str, variables: &Vec<(String, String)>) -> (r: String)
    ensures
        r@ == substitute(input_string@, variables@),
{
    let ghost s = input_string@;
    let ghost vars = variables@;
    let n = input_string.unicode_len();
    let mut out = String::new();
    let mut i: usize = 0;
    proof {
        assert(s.skip(0) =~= s);
    }
    while i < n
        invariant
            n == s.len(),
            i <= n,
            s == input_string@,
            vars == variables@,
            substitute(s, vars) == out@ + substitute(s.skip(i as int), vars),
        decreases n - i,
    {
        let ghost t = s.skip(i as int);
        let c = input_string.get_char(i);
        let mut replaced = false;
        if c == '$' && i + 1 < n && input_string.get_char(i + 1) == '{' {
            let mut j: usize = i + 2;
            while j < n && input_string.get_char(j) != '}'
                invariant
                    i + 2 <= j <= n,
                    n == s.len(),
                    s == input_string@,
                    forall|k: int| i + 2 <= k < j ==> s[k] != '}',
                decreases n - j,
            {
                j = j + 1;
            }
            if j < n {
                let name = input_string.substring_char(i + 2, j);
                match find_value(variables, name) {
                    Some(value) => {
                        proof {
                            let jj = (j - i) as int;
                            assert(closes_at(t, jj));
                            assert(t.subrange(2, jj) =~= name@);
                            assert(opens_known(t, vars));
                            let chosen = choose|j: int|
                                closes_at(t, j) && lookup_value(vars, t.subrange(2, j)) is Some;
                            lemma_closes_unique(t, chosen, jj);
                            assert(t.skip(jj + 1) =~= s.skip(j + 1));
                        }
                        out.append(value.as_str());
                        i = j + 1;
                        replaced = true;
                    },
                    None => {
                        proof {
                            let jj = (j - i) as int;
                            assert(t.subrange(2, jj) =~= name@);
                            if opens_known(t, vars) {
                                let w = choose|w: int|
                                    closes_at(t, w) && lookup_value(vars, t.subrange(2, w)) is Some;
                                assert(closes_at(t, jj));
                                lemma_closes_unique(t, w, jj);
                            }
                        }
                    },
                }
            } else {
                proof {
                    if opens_known(t, vars) {
                        let w = choose|w: int|
                            closes_at(t, w) && lookup_value(vars, t.subrange(2, w)) is Some;
                        assert(t[w] == '}');
                        assert(s[i + w] == '}');
                    }
                }
            }
        }
        if !replaced {
            proof {
                assert(!opens_known(t, vars));
                assert(t.skip(1) =~= s.skip(i + 1));
                assert(t[0] == s[i as int]);
            }
            let piece = input_string.substring_char(i, i + 1);
            proof {
                assert(piece@ =~= seq![t[0]]);
            }
            out.append(piece);
            i = i + 1;
        }
    }
    proof {
        assert(s.skip(n as int) =~= Seq::<char>::empty());
    }
    out
}

/// Whether no `${` occurs in `t`.
pub open spec fn free_of_placeholders(t: Seq<char>) -> bool {
    forall|i: int| 0 <= i < t.len() - 1 ==> !(#[trigger] t[i] == '$' && t[i + 1] == '{')
}

/// Substitution leaves a string without placeholders unchanged, and is
/// therefore idempotent on it.
pub proof fn lemma_substitute_idempotent(t: Seq<char>, vars: Seq<(String, String)>)
    requires
        free_of_placeholders(t),
    ensures
        substitute(t, vars) == t,
        substitute(substitute(t, vars), vars) == substitute(t, vars),
    decreases t.len(),
{
    if t.len() > 0 {
        if opens_known(t, vars) {
            let j = choose|j: int| closes_at(t, j) && lookup_value(vars, t.subrange(2, j)) is Some;
            assert(t[0] == '$' && t[1] == '{');
        }
        let rest = t.skip(1);
        assert forall|i: int| 0 <= i < rest.len() - 1 implies !(#[trigger] rest[i] == '$' && rest[i + 1]
            == '{') by {
            assert(rest[i] == t[i + 1] && rest[i + 1] == t[i + 2]);
        }
        lemma_substitute_idempotent(rest, vars);
        assert(seq![t[0]] + rest =~= t);
    }
}

proof fn lemma_substitute_dollar_free_prefix(u: Seq<char>, rest: Seq<char>, vars: Seq<(String, String)>)
    requires
        forall|i: int| 0 <= i < u.len() ==> #[trigger] u[i] != '$',
    ensures
        substitute(u + rest, vars) == u + substitute(rest, vars),
    decreases u.len(),
{
    if u.len() > 0 {
        let t = u + rest;
        assert(t[0] == u[0]);
        assert(!opens_known(t, vars));
        assert(t.skip(1) =~= u.drop_first() + rest);
        lemma_substitute_dollar_free_prefix(u.drop_first(), rest, vars);
        assert(seq![u[0]] + u.drop_first() =~= u);
    } else {
        assert(u + rest =~= rest);
    }
}

/// The placeholder text `${name}`.
pub open spec fn placeholder(name: Seq<char>) -> Seq<char> {
    seq!['$', '{'] + name + seq!['}']
}

/// A placeholder of a known variable is replaced by the variable's value,
/// and substitution goes on after it.
pub proof fn lemma_known_placeholder_replaced(
    name: Seq<char>,
    rest: Seq<char>,
    vars: Seq<(String, String)>,
)
    requires
        forall|i: int| 0 <= i < name.len() ==> #[trigger] name[i] != '}',
        lookup_value(vars, name) is Some,
    ensures
        substitute(placeholder(name) + rest, vars) == lookup_value(vars, name)->0@ + substitute(
            rest,
            vars,
        ),
{
    let t = placeholder(name) + rest;
    let j = name.len() + 2int;
    assert(t.subrange(2, j) =~= name);
    assert forall|k: int| 2 <= k < j implies t[k] != '}' by {
        assert(t[k] == name[k - 2]);
    }
    assert(closes_at(t, j));
    assert(opens_known(t, vars));
    let chosen = choose|w: int| closes_at(t, w) && lookup_value(vars, t.subrange(2, w)) is Some;
    lemma_closes_unique(t, chosen, j);
    assert(t.skip(j + 1) =~= rest);
}

/// A placeholder of an unknown variable whose name holds no `$` is left as
/// it is, and substitution goes on after it.
pub proof fn lemma_unknown_placeholder_kept(
    name: Seq<char>,
    rest: Seq<char>,
    vars: Seq<(String, String)>,
)
    requires
        forall|i: int| 0 <= i < name.len() ==> #[trigger] name[i] != '}' && name[i] != '$',
        lookup_value(vars, name) is None,
    ensures
        substitute(placeholder(name) + rest, vars) == placeholder(name) + substitute(rest, vars),
{
    let t = placeholder(name) + rest;
    let j = name.len() + 2int;
    assert(t.subrange(2, j) =~= name);
    assert forall|k: int| 2 <= k < j implies t[k] != '}' by {
        assert(t[k] == name[k - 2]);
    }
    if opens_known(t, vars) {
        let w = choose|w: int| closes_at(t, w) && lookup_value(vars, t.subrange(2, w)) is Some;
        assert(closes_at(t, j));
        lemma_closes_unique(t, w, j);
    }
    let tail = seq!['{'] + name + seq!['}'];
    assert forall|i: int| 0 <= i < tail.len() implies #[trigger] tail[i] != '$' by {
        if 0 < i < tail.len() - 1 {
            assert(tail[i] == name[i - 1]);
        }
    }
    assert(t.skip(1) =~= tail + rest);
    lemma_substitute_dollar_free_prefix(tail, rest, vars);
    assert(seq![t[0]] + tail + substitute(rest, vars) =~= placeholder(name) + substitute(rest, vars));
}

} // verus!
