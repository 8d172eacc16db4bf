//! Ordered replacement rules, and what is left of a text once they have run.

use crate::text::{chars_of, includes, occurs_at, replace, replace_all};
use vstd::prelude::*;

verus! {

/// One replacement: every occurrence of `from` becomes `to`.
#[derive(Debug, PartialEq, Eq)]
pub struct Rule {
    pub from: String,
    pub to: String,
}

/// The two texts of a rule.
pub struct RuleText {
    pub from: Seq<char>,
    pub to: Seq<char>,
}

impl View for Rule {
    type V = RuleText;

    open spec fn view(&self) -> RuleText {
        RuleText { from: self.from@, to: self.to@ }
    }
}

/// The texts of a list of rules.
pub open spec fn rule_texts(rules: Seq<Rule>) -> Seq<RuleText> {
    Seq::new(rules.len(), |i: int| rules[i]@)
}

/// `s` after all rules have run, first to last, each on what the one before it left.
pub open spec fn apply_rules(s: Seq<char>, rules: Seq<RuleText>) -> Seq<char>
    decreases rules.len(),
{
    if rules.len() == 0 {
        s
    } else {
        replace_all(apply_rules(s, rules.drop_last()), rules.last().from, rules.last().to)
    }
}

/// Runs all rules over `s`, first to last.
pub fn rewrite(s: Vec<char>, rules: &Vec<Rule>) -> (r: Vec<char>)
    ensures
        r@ == apply_rules(s@, rule_texts(rules@)),
{
    let ghost start = s@;
    let ghost texts = rule_texts(rules@);
    let mut s = s;
    let n: usize = rules.len();
    for i in 0..n
        invariant
            n == rules@.len(),
            texts == rule_texts(rules@),
            s@ == apply_rules(start, texts.take(i as int)),
    {
        let from = chars_of(rules[i].from.as_str());
        let to = chars_of(rules[i].to.as_str());
        s = replace(&s, &from, &to);
        assert(texts.take(i + 1).drop_last() == texts.take(i as int));
        assert(texts.take(i + 1).last() == rules@[i as int]@);
    }
    assert(texts.take(n as int) == texts);
    s
}

/// No occurrence of `q` can touch a copy of `to`, whatever stands around that copy: `q` is not
/// inside `to`, `q` cannot begin inside `to` and run past its end, and `q` cannot begin before
/// `to` and run into it.
pub open spec fn clear_of(to: Seq<char>, q: Seq<char>) -> bool {
    &&& !includes(to, q)
    &&& forall|i: int|
        0 <= i < to.len() && to.len() - i < q.len() ==> #[trigger] to.skip(i) != q.take(
            to.len() - i,
        )
    &&& forall|k: int| 0 < k < q.len() ==> !runs_into(#[trigger] q.skip(k), to)
}

/// `w` and `to` agree as far as both go.
pub open spec fn runs_into(w: Seq<char>, to: Seq<char>) -> bool {
    let n = if w.len() <= to.len() {
        w.len() as int
    } else {
        to.len() as int
    };
    w.take(n) == to.take(n)
}

/// Once rule `m` has run its pattern is gone, and no later rule brings it back: each of them
/// either puts in a text that the pattern cannot touch, or looks for a text that holds the
/// pattern itself.
pub open spec fn settles(rules: Seq<RuleText>, m: int) -> bool {
    let q = rules[m].from;
    &&& 0 <= m < rules.len()
    &&& q.len() > 0
    &&& clear_of(rules[m].to, q)
    &&& forall|j: int|
        m < j < rules.len() ==> clear_of((#[trigger] rules[j]).to, q) || includes(
            rules[j].from,
            q,
        )
}

/// A text in which `from` does not occur is left as it is.
pub proof fn replace_without_match(s: Seq<char>, from: Seq<char>, to: Seq<char>)
    requires
        !includes(s, from),
    ensures
        replace_all(s, from, to) == s,
    decreases s.len(),
{
    if from.len() > 0 && s.len() >= from.len() {
        assert(s.take(from.len() as int) == s.subrange(0, from.len() as int));
        assert(!occurs_at(s, from, 0));
        assert forall|i: int| !occurs_at(s.skip(1), from, i) by {
            if occurs_at(s.skip(1), from, i) {
                assert(s.skip(1).subrange(i, i + from.len()) == s.subrange(
                    i + 1,
                    i + 1 + from.len(),
                ));
                assert(occurs_at(s, from, i + 1));
            }
        }
        replace_without_match(s.skip(1), from, to);
        assert(s == seq![s[0]] + s.skip(1));
    }
}

/// What starts a rewritten text and cannot run into a replacement started the text before.
proof fn start_was_kept(s: Seq<char>, from: Seq<char>, to: Seq<char>, q: Seq<char>, k: int)
    requires
        0 < k <= q.len(),
        clear_of(to, q),
        replace_all(s, from, to).len() >= q.len() - k,
        replace_all(s, from, to).take(q.len() - k) == q.skip(k),
    ensures
        s.len() >= q.len() - k,
        s.take(q.len() - k) == q.skip(k),
    decreases s.len(),
{
    let r = replace_all(s, from, to);
    let w = q.skip(k);
    if k == q.len() {
        assert(s.take(0) == q.skip(k));
    } else if from.len() == 0 || s.len() < from.len() {
    } else if s.take(from.len() as int) == from {
        let n = if w.len() <= to.len() {
            w.len() as int
        } else {
            to.len() as int
        };
        assert(r.take(w.len() as int).take(n) == r.take(n));
        assert(r.take(n) == to.take(n));
        assert(runs_into(q.skip(k), to));
        assert(false);
    } else {
        let rest = replace_all(s.skip(1), from, to);
        assert(w[0] == r.take(w.len() as int)[0]);
        assert(rest == r.skip(1));
        assert(rest.take(q.len() - k - 1) == r.take(w.len() as int).skip(1));
        assert(q.skip(k + 1) == w.skip(1));
        start_was_kept(s.skip(1), from, to, q, k + 1);
        assert(s.take(q.len() - k) == seq![s[0]] + s.skip(1).take(q.len() - k - 1));
        assert(w == seq![w[0]] + w.skip(1));
    }
}

/// Replacing `from` by a text that `q` cannot touch leaves no `q` behind, if `q` is what is
/// replaced or was not there before.
pub proof fn replace_leaves_none(s: Seq<char>, from: Seq<char>, to: Seq<char>, q: Seq<char>)
    requires
        q.len() > 0,
        clear_of(to, q),
        q == from || !includes(s, q),
    ensures
        !includes(replace_all(s, from, to), q),
    decreases s.len(),
{
    let r = replace_all(s, from, to);
    if from.len() == 0 || s.len() < from.len() {
        if q == from && includes(s, q) {
            let i = choose|i: int| occurs_at(s, q, i);
            assert(false);
        }
    } else {
        let matched = s.take(from.len() as int) == from;
        let cut = if matched {
            from.len() as int
        } else {
            1
        };
        let head = if matched {
            to
        } else {
            seq![s[0]]
        };
        let tail = s.skip(cut);
        let rest = replace_all(tail, from, to);
        assert(r == head + rest);
        if q != from {
            assert forall|i: int| !occurs_at(tail, q, i) by {
                if occurs_at(tail, q, i) {
                    assert(tail.subrange(i, i + q.len()) == s.subrange(
                        i + cut,
                        i + cut + q.len(),
                    ));
                    assert(occurs_at(s, q, i + cut));
                }
            }
        }
        replace_leaves_none(tail, from, to, q);
        assert forall|i: int| !occurs_at(r, q, i) by {
            if occurs_at(r, q, i) {
                let window = r.subrange(i, i + q.len());
                if i >= head.len() {
                    assert(rest.subrange(i - head.len(), i - head.len() + q.len()) == window);
                    assert(occurs_at(rest, q, i - head.len()));
                } else if matched {
                    if i + q.len() <= to.len() {
                        assert(to.subrange(i, i + q.len()) == window);
                        assert(occurs_at(to, q, i));
                    } else {
                        assert(to.skip(i) == window.take(to.len() - i));
                        assert(false);
                    }
                } else {
                    assert(i == 0);
                    assert(rest.take(q.len() - 1) == window.skip(1));
                    start_was_kept(tail, from, to, q, 1);
                    assert(window[0] == s[0]);
                    assert(s.subrange(0, q.len() as int) == seq![s[0]] + tail.take(q.len() - 1));
                    assert(q == seq![q[0]] + q.skip(1));
                    assert(occurs_at(s, q, 0));
                    assert(s.take(q.len() as int) == s.subrange(0, q.len() as int));
                    assert(false);
                }
            }
        }
    }
}

/// What holds the pattern `q` cannot occur where `q` does not.
pub proof fn wider_pattern_absent(s: Seq<char>, wide: Seq<char>, q: Seq<char>)
    requires
        !includes(s, q),
        includes(wide, q),
    ensures
        !includes(s, wide),
{
    let k = choose|k: int| occurs_at(wide, q, k);
    assert forall|i: int| !occurs_at(s, wide, i) by {
        if occurs_at(s, wide, i) {
            assert(s.subrange(i + k, i + k + q.len()) == s.subrange(i, i + wide.len()).subrange(
                k,
                k + q.len(),
            ));
            assert(occurs_at(s, q, i + k));
        }
    }
}

/// When rule `m` settles, its pattern does not occur in the rewritten text, whatever the text
/// was.
pub proof fn rules_leave_none(s: Seq<char>, rules: Seq<RuleText>, m: int)
    requires
        settles(rules, m),
    ensures
        !includes(apply_rules(s, rules), rules[m].from),
    decreases rules.len(),
{
    let q = rules[m].from;
    let front = rules.drop_last();
    let before = apply_rules(s, front);
    let last = rules.last();
    if m == rules.len() - 1 {
        replace_leaves_none(before, last.from, last.to, q);
    } else {
        assert(front[m] == rules[m]);
        assert forall|j: int| m < j < front.len() implies clear_of((#[trigger] front[j]).to, q)
            || includes(front[j].from, q) by {
            assert(front[j] == rules[j]);
        }
        rules_leave_none(s, front, m);
        if clear_of(last.to, q) {
            replace_leaves_none(before, last.from, last.to, q);
        } else {
            assert(rules[rules.len() - 1] == last);
            wider_pattern_absent(before, last.from, q);
            replace_without_match(before, last.from, last.to);
        }
    }
}

/// A text that holds none of the patterns is left as it is.
pub proof fn rules_keep_other_text(s: Seq<char>, rules: Seq<RuleText>)
    requires
        forall|j: int| 0 <= j < rules.len() ==> !includes(s, (#[trigger] rules[j]).from),
    ensures
        apply_rules(s, rules) == s,
    decreases rules.len(),
{
    if rules.len() > 0 {
        let front = rules.drop_last();
        assert forall|j: int| 0 <= j < front.len() implies !includes(
            s,
            (#[trigger] front[j]).from,
        ) by {
            assert(front[j] == rules[j]);
        }
        rules_keep_other_text(s, front);
        assert(rules[rules.len() - 1] == rules.last());
        replace_without_match(s, rules.last().from, rules.last().to);
    }
}

/// Rules run one after the other: those of a list and then those of another are those of both.
pub proof fn rules_run_in_order(s: Seq<char>, a: Seq<RuleText>, b: Seq<RuleText>)
    ensures
        apply_rules(s, a + b) == apply_rules(apply_rules(s, a), b),
    decreases b.len(),
{
    if b.len() == 0 {
        assert(a + b =~= a);
    } else {
        assert((a + b).drop_last() =~= a + b.drop_last());
        rules_run_in_order(s, a, b.drop_last());
    }
}

/// One rule replaces what it looks for, and no rule changes nothing.
pub proof fn single_rule_replaces(s: Seq<char>, rule: RuleText)
    ensures
        apply_rules(s, seq![rule]) == replace_all(s, rule.from, rule.to),
        apply_rules(s, Seq::empty()) == s,
{
    assert(seq![rule].drop_last() =~= Seq::<RuleText>::empty());
    assert(apply_rules(s, seq![rule].drop_last()) == s);
}

/// The texts of a list of rules are the texts of each.
pub proof fn rule_texts_are_elementwise(rules: Seq<Rule>, i: int)
    requires
        0 <= i < rules.len(),
    ensures
        rule_texts(rules).len() == rules.len(),
        rule_texts(rules)[i].from == rules[i].from@,
        rule_texts(rules)[i].to == rules[i].to@,
{
}

} // verus!
