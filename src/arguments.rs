//! The launch argument builder: expands conditional argument entries on
//! a platform and orders JVM-side arguments, main class and game-side
//! arguments.

use crate::descriptor::{ArgumentValue, JsonAdvanceArgument, JsonArgument, JsonVersion};
use crate::rules::{
    evaluate_rules, lemma_foreign_allow_excludes, lower_of, rules_outcome, JsonOperatingSystem, JsonRule, Platform, RuleAction,
};
use vstd::prelude::*;
use vstd::string::StrSliceExecFns;

verus! {

/// The strings that an argument value contributes, in order.
pub open spec fn value_strings(v: ArgumentValue) -> Seq<String> {
    match v {
        ArgumentValue::Single(s) => seq![s],
        ArgumentValue::List(l) => l@,
    }
}

/// What one entry contributes: a plain string itself, a conditional one its
/// value where its rules include it and nothing elsewhere.
pub open spec fn entry_expansion(e: JsonArgument, p: Platform, check_arch: bool) -> Seq<String> {
    match e {
        JsonArgument::Plain(s) => seq![s],
        JsonArgument::Advanced(a) => if rules_outcome(a.rules@, p, check_arch) {
            value_strings(a.value)
        } else {
            Seq::empty()
        },
    }
}

/// The expansion of an entry list, entry by entry in order.
pub open spec fn expand_entries(es: Seq<JsonArgument>, p: Platform, check_arch: bool) -> Seq<String>
    decreases es.len(),
{
    if es.len() == 0 {
        Seq::empty()
    } else {
        expand_entries(es.drop_last(), p, check_arch) + entry_expansion(es.last(), p, check_arch)
    }
}

/// Whether the descriptor carries a non-empty legacy argument blob.
pub open spec fn has_legacy_blob(v: JsonVersion) -> bool {
    v.arguments_old matches Some(s) && s@.len() > 0
}

/// The unsubstituted argument list of a descriptor on a platform: the
/// legacy blob alone where there is one; else the JVM-side entries
/// (architecture predicates checked), the main class, and the game-side
/// entries (architecture predicates not checked).
pub open spec fn launch_arguments(v: JsonVersion, p: Platform) -> Seq<String> {
    if has_legacy_blob(v) {
        seq![v.arguments_old->0]
    } else {
        expand_entries(v.arguments.jvm@, p, true) + seq![v.main_class] + expand_entries(
            v.arguments.game@,
            p,
            false,
        )
    }
}

fn push_value(out: &mut Vec<String>, value: &ArgumentValue)
    ensures
        final(out)@ == old(out)@ + value_strings(*value),
{
    match value {
        ArgumentValue::Single(s) => {
            out.push(s.clone());
            proof {
                assert(final(out)@ =~= old(out)@ + seq![*s]);
            }
        },
        ArgumentValue::List(l) => {
            let ghost start = out@;
            let mut i: usize = 0;
            while i < l.len()
                invariant
                    i <= l@.len(),
                    out@ == start + l@.take(i as int),
                decreases l@.len() - i,
            {
                out.push(l[i].clone());
                proof {
                    assert(l@.take(i + 1) =~= l@.take(i as int).push(l@[i as int]));
                }
                i = i + 1;
            }
            proof {
                assert(l@.take(i as int) =~= l@);
            }
        },
    }
}

/// Appends the expansion of an entry list to `out`.
pub fn push_expansion(
    out: &mut Vec<String>,
    entries: &Vec<JsonArgument>,
    platform: &Platform,
    check_arch: bool,
)
    ensures
        final(out)@ == old(out)@ + expand_entries(entries@, *platform, check_arch),
{
    let ghost start = out@;
    let mut i: usize = 0;
    while i < entries.len()
        invariant
            i <= entries@.len(),
            out@ == start + expand_entries(entries@.take(i as int), *platform, check_arch),
        decreases entries@.len() - i,
    {
        let ghost before = out@;
        match &entries[i] {
            JsonArgument::Plain(s) => {
                out.push(s.clone());
            },
            JsonArgument::Advanced(a) => {
                if evaluate_rules(&a.rules, platform, check_arch) {
                    push_value(out, &a.value);
                }
            },
        }
        proof {
            let t = entries@.take(i + 1);
            assert(t.drop_last() =~= entries@.take(i as int));
            assert(t.last() == entries@[i as int]);
            assert(out@ =~= before + entry_expansion(entries@[i as int], *platform, check_arch));
            assert(out@ =~= start + expand_entries(t, *platform, check_arch));
        }
        i = i + 1;
    }
    proof {
        assert(entries@.take(i as int) =~= entries@);
    }
}

/// Builds the unsubstituted argument list of a descriptor on a platform.
pub fn build_arguments(version: &JsonVersion, platform: &Platform) -> (r: Vec<String>)
    ensures
        r@ == launch_arguments(*version, *platform),
{
    match &version.arguments_old {
        Some(blob) => {
            if blob.as_str().unicode_len() > 0 {
                let mut r: Vec<String> = Vec::new();
                r.push(blob.clone());
                proof {
                    assert(r@ =~= seq![*blob]);
                }
                return r;
            }
        },
        None => {},
    }
    let mut r: Vec<String> = Vec::new();
    push_expansion(&mut r, &version.arguments.jvm, platform, true);
    r.push(version.main_class.clone());
    push_expansion(&mut r, &version.arguments.game, platform, false);
    proof {
        assert(r@ =~= launch_arguments(*version, *platform));
    }
    r
}

/// A JVM-side argument guarded by a single allow for an operating system
/// whose name differs from the platform's (ignoring case) contributes
/// nothing, whatever its value.
pub proof fn lemma_guarded_argument_dropped(
    a: JsonAdvanceArgument,
    os: JsonOperatingSystem,
    p: Platform,
)
    requires
        a.rules@ == seq![JsonRule { action: RuleAction::Allow, os: Some(os) }],
        os.name matches Some(n) && lower_of(n@) != lower_of(p.os_name@),
    ensures
        expand_entries(seq![JsonArgument::Advanced(a)], p, true) == Seq::<String>::empty(),
{
    let es = seq![JsonArgument::Advanced(a)];
    assert(es.drop_last() =~= Seq::<JsonArgument>::empty());
    assert(es.last() == JsonArgument::Advanced(a));
    let rule = JsonRule { action: RuleAction::Allow, os: Some(os) };
    lemma_foreign_allow_excludes(rule, p, true);
    assert(!rules_outcome(a.rules@, p, true));
    assert(expand_entries(es.drop_last(), p, true) =~= Seq::<String>::empty());
    assert(expand_entries(es, p, true) =~= Seq::<String>::empty());
}

} // verus!
