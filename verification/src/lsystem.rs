//! L-systems: a rule-rewriting string generator.  Each expansion step
//! rewrites every symbol by one of its rules, picked at random when a
//! symbol has several; symbols without a rule stay as they are.
//!
//! Reading a system from a file is split: the surrounding program
//! reads the lines, and `from_lines` parses them here.

use vstd::prelude::*;
use crate::geometry::Color;

verus! {

/// A material entry of the color table: a flat color or the name of a
/// texture image.
#[derive(Debug, Clone)]
pub enum LSMaterial {
    Uniform(Color),
    Texture(String),
}

/// A parse failure of `from_lines`.
#[derive(Debug, Clone, Copy, PartialEq, Eq, Structural)]
pub enum LSError {
    MissingLine,
    BadNumber,
    BadRule,
}

/// An L-system: the current string, the rewriting rules, and the
/// geometric parameters its turtle interpretation uses (fixed point:
/// the angle in milliradians, lengths in raw steps, the radius decay
/// at scale 1000).
pub struct LSystem {
    value: Vec<char>,
    rules: Vec<(char, Vec<Vec<char>>)>,
    age: u64,
    delta: i64,
    trunk: u64,
    radius: i64,
    radius_decrease: i64,
    color_table: Vec<LSMaterial>,
}

/// The rules with every vector turned into its sequence view.
pub open spec fn rules_view(rules: Seq<(char, Vec<Vec<char>>)>) -> Seq<(char, Seq<Seq<char>>)> {
    rules.map_values(|p: (char, Vec<Vec<char>>)| (p.0, p.1@.map_values(|r: Vec<char>| r@)))
}

/// Whether some rule is keyed by `c`.
pub open spec fn has_key(rv: Seq<(char, Seq<Seq<char>>)>, c: char) -> bool {
    exists|i: int| 0 <= i < rv.len() && (#[trigger] rv[i]).0 == c
}

/// Whether `out` is a legal rewriting of the single symbol `c`: one of
/// the symbol's rules when it has any, the symbol itself otherwise.
pub open spec fn expands_to(rv: Seq<(char, Seq<Seq<char>>)>, c: char, out: Seq<char>) -> bool {
    if has_key(rv, c) {
        exists|i: int, j: int|
            0 <= i < rv.len() && (#[trigger] rv[i]).0 == c && 0 <= j < rv[i].1.len() && out == (
            #[trigger] rv[i].1[j])
    } else {
        out == seq![c]
    }
}

/// Whether `output` is a legal rewriting of the whole `input`: a
/// concatenation of one legal rewriting per symbol, in order.
pub open spec fn valid_expansion(
    rv: Seq<(char, Seq<Seq<char>>)>,
    input: Seq<char>,
    output: Seq<char>,
) -> bool
    decreases input.len(),
{
    if input.len() == 0 {
        output.len() == 0
    } else {
        exists|k: int|
            0 <= k <= output.len() && valid_expansion(
                rv,
                input.drop_last(),
                #[trigger] output.take(k),
            ) && expands_to(rv, input.last(), output.skip(k))
    }
}

/// Whether `vk` arises from `v0` by `n` legal expansion steps.
pub open spec fn valid_generations(
    rv: Seq<(char, Seq<Seq<char>>)>,
    v0: Seq<char>,
    vk: Seq<char>,
    n: nat,
) -> bool
    decreases n,
{
    if n == 0 {
        vk == v0
    } else {
        exists|mid: Seq<char>|
            valid_generations(rv, v0, mid, (n - 1) as nat) && #[trigger] valid_expansion(
                rv,
                mid,
                vk,
            )
    }
}

/// Relies on `rand::random`: an arbitrary machine word; nothing is
/// promised of its value.
#[verifier::external_body]
fn random_u64() -> u64 {
    rand::random::<u64>()
}

/// Relies on `String::push`: appends exactly one character.
#[verifier::external_body]
fn string_push(s: &mut String, c: char)
    ensures
        final(s)@ == old(s)@.push(c),
{
    s.push(c)
}

/// Find the rule entry keyed by `c`, scanning in order.
fn find_rule(rules: &Vec<(char, Vec<Vec<char>>)>, c: char) -> (r: Option<usize>)
    ensures
        match r {
            Option::Some(i) => 0 <= i < rules@.len() && rules_view(rules@)[i as int].0 == c,
            Option::None => !has_key(rules_view(rules@), c),
        },
{
    let n = rules.len();
    let mut i: usize = 0;
    while i < n
        invariant
            n == rules@.len(),
            i <= n,
            forall|j: int| 0 <= j < i ==> (#[trigger] rules_view(rules@)[j]).0 != c,
        decreases n - i,
    {
        if rules[i].0 == c {
            proof {
                assert(rules_view(rules@)[i as int].0 == rules@[i as int].0);
            }
            return Some(i);
        }
        proof {
            assert(rules_view(rules@)[i as int].0 == rules@[i as int].0);
        }
        i = i + 1;
    }
    None
}

impl LSystem {
    pub closed spec fn spec_value(self) -> Seq<char> {
        self.value@
    }

    pub closed spec fn spec_rules(self) -> Seq<(char, Seq<Seq<char>>)> {
        rules_view(self.rules@)
    }

    pub closed spec fn spec_age(self) -> int {
        self.age as int
    }

    pub closed spec fn spec_delta(self) -> int {
        self.delta as int
    }

    pub closed spec fn spec_trunk(self) -> int {
        self.trunk as int
    }

    pub closed spec fn spec_radius(self) -> int {
        self.radius as int
    }

    pub closed spec fn spec_radius_decrease(self) -> int {
        self.radius_decrease as int
    }

    pub closed spec fn spec_colors(self) -> Seq<LSMaterial> {
        self.color_table@
    }

    /// Every symbol keys at most one entry, and no entry is empty.
    pub open spec fn wf(self) -> bool {
        (forall|i: int, j: int|
            0 <= i < j < self.spec_rules().len() ==> (#[trigger] self.spec_rules()[i]).0 != (
            #[trigger] self.spec_rules()[j]).0) && (forall|i: int|
            0 <= i < self.spec_rules().len() ==> (#[trigger] self.spec_rules()[i]).1.len() >= 1)
    }

    pub fn new(
        axioms: Vec<char>,
        age: u64,
        delta: i64,
        trunk: u64,
        radius: i64,
        radius_decrease: i64,
    ) -> (r: LSystem)
        ensures
            r.wf(),
            r.spec_value() == axioms@,
            r.spec_rules().len() == 0,
            r.spec_age() == age,
            r.spec_delta() == delta,
            r.spec_trunk() == trunk,
            r.spec_radius() == radius,
            r.spec_radius_decrease() == radius_decrease,
            r.spec_colors().len() == 0,
    {
        LSystem {
            value: axioms,
            age,
            delta,
            trunk,
            radius,
            radius_decrease,
            rules: Vec::new(),
            color_table: Vec::new(),
        }
    }

    /// The current string.
    pub fn value(&self) -> (r: &Vec<char>)
        ensures
            r@ == self.spec_value(),
    {
        &self.value
    }

    /// The color table.
    pub fn materials(&self) -> (r: &Vec<LSMaterial>)
        ensures
            r@ == self.spec_colors(),
    {
        &self.color_table
    }

    /// The rotation step, in milliradians.
    pub fn delta(&self) -> (r: i64)
        ensures
            r as int == self.spec_delta(),
    {
        self.delta
    }

    /// How many leading branch levels count as trunk.
    pub fn trunk(&self) -> (r: u64)
        ensures
            r as int == self.spec_trunk(),
    {
        self.trunk
    }

    /// The starting branch radius, in raw steps.
    pub fn radius(&self) -> (r: i64)
        ensures
            r as int == self.spec_radius(),
    {
        self.radius
    }

    /// The per-branch radius decay factor, at scale 1000.
    pub fn radius_decrease(&self) -> (r: i64)
        ensures
            r as int == self.spec_radius_decrease(),
    {
        self.radius_decrease
    }

    /// The current string as a `String`.
    pub fn to_string(&self) -> (r: String)
        ensures
            r@ == self.spec_value(),
    {
        let mut s = String::new();
        let n = self.value.len();
        let mut i: usize = 0;
        while i < n
            invariant
                n == self.spec_value().len(),
                i <= n,
                s@ == self.spec_value().take(i as int),
            decreases n - i,
        {
            string_push(&mut s, self.value[i]);
            proof {
                assert(self.spec_value().take(i + 1) =~= self.spec_value().take(i as int).push(
                    self.spec_value()[i as int],
                ));
            }
            i = i + 1;
        }
        proof {
            assert(self.spec_value().take(n as int) =~= self.spec_value());
        }
        s
    }

    /// Add one rewriting rule for `symbol`: a new entry when the
    /// symbol had none, otherwise one more alternative on its entry.
    pub fn add_rule(&mut self, symbol: char, rule: Vec<char>)
        requires
            old(self).wf(),
        ensures
            final(self).wf(),
            final(self).spec_value() == old(self).spec_value(),
            final(self).spec_age() == old(self).spec_age(),
            final(self).spec_delta() == old(self).spec_delta(),
            final(self).spec_trunk() == old(self).spec_trunk(),
            final(self).spec_radius() == old(self).spec_radius(),
            final(self).spec_radius_decrease() == old(self).spec_radius_decrease(),
            final(self).spec_colors() == old(self).spec_colors(),
            if has_key(old(self).spec_rules(), symbol) {
                exists|i: int|
                    0 <= i < old(self).spec_rules().len() && (#[trigger] old(
                        self,
                    ).spec_rules()[i]).0 == symbol && final(self).spec_rules() == old(
                        self,
                    ).spec_rules().update(i, (symbol, old(self).spec_rules()[i].1.push(rule@)))
            } else {
                final(self).spec_rules() == old(self).spec_rules().push((symbol, seq![rule@]))
            },
    {
        let found = find_rule(&self.rules, symbol);
        match found {
            Some(i) => {
                let ghost old_rules = self.rules@;
                let mut entry = self.rules.remove(i);
                entry.1.push(rule);
                self.rules.insert(i, entry);
                proof {
                    assert(self.rules@ =~= old_rules.update(
                        i as int,
                        (old_rules[i as int].0, entry.1),
                    ));
                    assert(entry.1@ =~= old_rules[i as int].1@.push(rule));
                    assert(rules_view(self.rules@) =~~= rules_view(old_rules).update(
                        i as int,
                        (symbol, rules_view(old_rules)[i as int].1.push(rule@)),
                    ));
                    assert forall|a: int, b: int|
                        0 <= a < b < self.spec_rules().len() implies (
                    #[trigger] self.spec_rules()[a]).0 != (#[trigger] self.spec_rules()[b]).0 by {
                        assert(old(self).spec_rules()[a].0 == self.spec_rules()[a].0);
                        assert(old(self).spec_rules()[b].0 == self.spec_rules()[b].0);
                    };
                    assert forall|a: int|
                        0 <= a < self.spec_rules().len() implies (
                    #[trigger] self.spec_rules()[a]).1.len() >= 1 by {
                        assert(old(self).spec_rules()[a].1.len() >= 1);
                        if a == i {
                            assert(self.spec_rules()[a].1 == old(self).spec_rules()[
                                a
                            ].1.push(rule@));
                        } else {
                            assert(self.spec_rules()[a] == old(self).spec_rules()[a]);
                        }
                    };
                }
            },
            None => {
                let ghost old_rules = self.rules@;
                let mut one: Vec<Vec<char>> = Vec::new();
                one.push(rule);
                self.rules.push((symbol, one));
                proof {
                    assert(one@.map_values(|r: Vec<char>| r@) =~= seq![rule@]);
                    assert(rules_view(self.rules@) =~~= rules_view(old_rules).push(
                        (symbol, seq![rule@]),
                    ));
                    assert forall|a: int, b: int|
                        0 <= a < b < self.spec_rules().len() implies (
                    #[trigger] self.spec_rules()[a]).0 != (#[trigger] self.spec_rules()[b]).0 by {
                        if b < self.spec_rules().len() - 1 {
                            assert(self.spec_rules()[a] == old(self).spec_rules()[a]);
                            assert(self.spec_rules()[b] == old(self).spec_rules()[b]);
                        } else {
                            assert(self.spec_rules()[a] == old(self).spec_rules()[a]);
                            assert(self.spec_rules()[b].0 == symbol);
                            assert(old(self).spec_rules()[a].0 != symbol);
                        }
                    };
                    assert forall|a: int|
                        0 <= a < self.spec_rules().len() implies (
                    #[trigger] self.spec_rules()[a]).1.len() >= 1 by {
                        if a < self.spec_rules().len() - 1 {
                            assert(self.spec_rules()[a] == old(self).spec_rules()[a]);
                        } else {
                            assert(self.spec_rules()[a].1 == seq![rule@]);
                        }
                    };
                }
            },
        }
    }

    /// Append a material to the color table.
    pub fn add_material(&mut self, mat: LSMaterial)
        requires
            old(self).wf(),
        ensures
            final(self).wf(),
            final(self).spec_value() == old(self).spec_value(),
            final(self).spec_rules() == old(self).spec_rules(),
            final(self).spec_age() == old(self).spec_age(),
            final(self).spec_delta() == old(self).spec_delta(),
            final(self).spec_trunk() == old(self).spec_trunk(),
            final(self).spec_radius() == old(self).spec_radius(),
            final(self).spec_radius_decrease() == old(self).spec_radius_decrease(),
            final(self).spec_colors() == old(self).spec_colors().push(mat),
    {
        self.color_table.push(mat);
        proof {
            assert(self.spec_rules() == old(self).spec_rules());
            assert forall|a: int, b: int|
                0 <= a < b < self.spec_rules().len() implies (#[trigger] self.spec_rules()[a]).0
                != (#[trigger] self.spec_rules()[b]).0 by {
                assert(self.spec_rules()[a] == old(self).spec_rules()[a]);
                assert(self.spec_rules()[b] == old(self).spec_rules()[b]);
            };
            assert forall|a: int|
                0 <= a < self.spec_rules().len() implies (
            #[trigger] self.spec_rules()[a]).1.len() >= 1 by {
                assert(self.spec_rules()[a] == old(self).spec_rules()[a]);
            };
        }
    }

    /// Replace the color table.
    pub fn with_colors(self, color_table: Vec<LSMaterial>) -> (r: LSystem)
        requires
            self.wf(),
        ensures
            r.wf(),
            r.spec_value() == self.spec_value(),
            r.spec_rules() == self.spec_rules(),
            r.spec_age() == self.spec_age(),
            r.spec_delta() == self.spec_delta(),
            r.spec_trunk() == self.spec_trunk(),
            r.spec_radius() == self.spec_radius(),
            r.spec_radius_decrease() == self.spec_radius_decrease(),
            r.spec_colors() == color_table@,
    {
        let r = LSystem { color_table, ..self };
        proof {
            assert(r.spec_rules() == self.spec_rules());
            assert forall|a: int, b: int|
                0 <= a < b < r.spec_rules().len() implies (#[trigger] r.spec_rules()[a]).0 != (
            #[trigger] r.spec_rules()[b]).0 by {
                assert(r.spec_rules()[a] == self.spec_rules()[a]);
                assert(r.spec_rules()[b] == self.spec_rules()[b]);
            };
            assert forall|a: int|
                0 <= a < r.spec_rules().len() implies (#[trigger] r.spec_rules()[a]).1.len()
                >= 1 by {
                assert(r.spec_rules()[a] == self.spec_rules()[a]);
            };
        }
        r
    }

    /// Rewrite the whole string once.  Every symbol is replaced by one
    /// of its rules (picked at random among alternatives), or kept
    /// when it has none; the results are concatenated in order.
    pub fn expand(&mut self)
        requires
            old(self).wf(),
        ensures
            final(self).wf(),
            final(self).spec_rules() == old(self).spec_rules(),
            final(self).spec_age() == old(self).spec_age(),
            final(self).spec_delta() == old(self).spec_delta(),
            final(self).spec_trunk() == old(self).spec_trunk(),
            final(self).spec_radius() == old(self).spec_radius(),
            final(self).spec_radius_decrease() == old(self).spec_radius_decrease(),
            final(self).spec_colors() == old(self).spec_colors(),
            valid_expansion(
                old(self).spec_rules(),
                old(self).spec_value(),
                final(self).spec_value(),
            ),
    {
        let n = self.value.len();
        let mut res: Vec<char> = Vec::new();
        let mut ci: usize = 0;
        while ci < n
            invariant
                *self == *old(self),
                old(self).wf(),
                n == self.spec_value().len(),
                ci <= n,
                valid_expansion(self.spec_rules(), self.spec_value().take(ci as int), res@),
            decreases n - ci,
        {
            let c = self.value[ci];
            let ghost res0 = res@;
            match find_rule(&self.rules, c) {
                Some(ri) => {
                    let opts = &self.rules[ri].1;
                    let nopts = opts.len();
                    proof {
                        assert(self.spec_rules()[ri as int].1.len() >= 1);
                        assert(self.spec_rules()[ri as int].1 == opts@.map_values(
                            |r: Vec<char>| r@,
                        ));
                    }
                    let pick = (random_u64() % (nopts as u64)) as usize;
                    let seg = &opts[pick];
                    let slen = seg.len();
                    let mut k: usize = 0;
                    while k < slen
                        invariant
                            seg@ == seg@,
                            slen == seg@.len(),
                            k <= slen,
                            res@ == res0 + seg@.take(k as int),
                        decreases slen - k,
                    {
                        let ch = seg[k];
                        res.push(ch);
                        proof {
                            assert(seg@.take(k + 1) =~= seg@.take(k as int).push(seg@[k as int]));
                            assert(res0 + seg@.take(k as int).push(seg@[k as int]) =~= (res0
                                + seg@.take(k as int)).push(seg@[k as int]));
                        }
                        k = k + 1;
                    }
                    proof {
                        assert(seg@.take(slen as int) =~= seg@);
                        assert((res0 + seg@).skip(res0.len() as int) =~= seg@);
                        assert((res0 + seg@).take(res0.len() as int) =~= res0);
                        assert(self.spec_rules()[ri as int].1[pick as int] == seg@);
                        assert(has_key(self.spec_rules(), c));
                        assert(expands_to(self.spec_rules(), c, seg@));
                        lemma_expansion_step(
                            self.spec_rules(),
                            self.spec_value(),
                            ci as int,
                            res0,
                            seg@,
                        );
                    }
                },
                None => {
                    res.push(c);
                    proof {
                        assert(res@ =~= res0 + seq![c]);
                        assert((res0 + seq![c]).skip(res0.len() as int) =~= seq![c]);
                        assert((res0 + seq![c]).take(res0.len() as int) =~= res0);
                        assert(expands_to(self.spec_rules(), c, seq![c]));
                        lemma_expansion_step(
                            self.spec_rules(),
                            self.spec_value(),
                            ci as int,
                            res0,
                            seq![c],
                        );
                    }
                },
            }
            ci = ci + 1;
        }
        proof {
            assert(self.spec_value().take(n as int) =~= self.spec_value());
        }
        self.value = res;
    }

    /// Expand the string `age` times.
    pub fn generate(self) -> (r: LSystem)
        requires
            self.wf(),
        ensures
            r.wf(),
            r.spec_rules() == self.spec_rules(),
            r.spec_age() == self.spec_age(),
            r.spec_colors() == self.spec_colors(),
            valid_generations(
                self.spec_rules(),
                self.spec_value(),
                r.spec_value(),
                self.spec_age() as nat,
            ),
    {
        let mut cur = self;
        let age = cur.age;
        let mut i: u64 = 0;
        while i < age
            invariant
                cur.wf(),
                cur.spec_rules() == self.spec_rules(),
                cur.spec_age() == self.spec_age(),
                cur.spec_colors() == self.spec_colors(),
                i <= age,
                age == self.spec_age(),
                valid_generations(self.spec_rules(), self.spec_value(), cur.spec_value(), i as nat),
            decreases age - i,
        {
            let ghost mid = cur.spec_value();
            cur.expand();
            proof {
                assert(valid_generations(
                    self.spec_rules(),
                    self.spec_value(),
                    cur.spec_value(),
                    (i + 1) as nat,
                )) by {
                    assert(valid_generations(self.spec_rules(), self.spec_value(), mid, i as nat)
                        && valid_expansion(self.spec_rules(), mid, cur.spec_value()));
                }
            }
            i = i + 1;
        }
        cur
    }
}

/// The value of a nonempty all-digit string of at most 18 digits.
pub open spec fn digits_val(s: Seq<char>) -> int
    decreases s.len(),
{
    if s.len() == 0 {
        0
    } else {
        digits_val(s.drop_last()) * 10 + (s.last() as int - '0' as int)
    }
}

/// Whether every character is a decimal digit.
pub open spec fn all_digits(s: Seq<char>) -> bool {
    forall|i: int| 0 <= i < s.len() ==> '0' <= #[trigger] s[i] <= '9'
}

/// The accepted unsigned decimal grammar: one to eighteen digits.
pub open spec fn spec_parse_u64(s: Seq<char>) -> Option<int> {
    if 1 <= s.len() <= 18 && all_digits(s) {
        Option::Some(digits_val(s))
    } else {
        Option::None
    }
}

/// The first position of `c`, or the length when absent.
pub open spec fn idx_of(s: Seq<char>, c: char) -> int
    decreases s.len(),
{
    if s.len() == 0 {
        0
    } else if s.first() == c {
        0
    } else {
        1 + idx_of(s.drop_first(), c)
    }
}

/// The accepted fixed-point decimal grammar: one to fifteen integer
/// digits, optionally a point and one to three fraction digits; the
/// value is in raw steps (thousandths).
pub open spec fn spec_parse_fixed(s: Seq<char>) -> Option<int> {
    let d = idx_of(s, '.');
    if d == s.len() {
        if 1 <= s.len() <= 15 && all_digits(s) {
            Option::Some(digits_val(s) * 1000)
        } else {
            Option::None
        }
    } else {
        let ip = s.take(d);
        let fp = s.skip(d + 1);
        if 1 <= ip.len() <= 15 && all_digits(ip) && 1 <= fp.len() <= 3 && all_digits(fp) {
            Option::Some(
                digits_val(ip) * 1000 + digits_val(fp) * (if fp.len() == 1 {
                    100int
                } else if fp.len() == 2 {
                    10int
                } else {
                    1int
                }),
            )
        } else {
            Option::None
        }
    }
}

/// Powers of ten.
pub open spec fn pow10(n: nat) -> int
    decreases n,
{
    if n == 0 {
        1
    } else {
        10 * pow10((n - 1) as nat)
    }
}

/// An all-digit string's value stays under the matching power of ten.
proof fn lemma_digits_lt_pow10(s: Seq<char>)
    requires
        all_digits(s),
    ensures
        0 <= digits_val(s) < pow10(s.len()),
    decreases s.len(),
{
    if s.len() > 0 {
        assert(all_digits(s.drop_last()));
        lemma_digits_lt_pow10(s.drop_last());
        assert('0' <= s.last() <= '9');
    }
}

/// Powers of ten grow with the exponent.
proof fn lemma_pow10_le(a: nat, b: nat)
    requires
        a <= b,
    ensures
        pow10(a) <= pow10(b),
        pow10(a) >= 1,
    decreases b,
{
    if a < b {
        lemma_pow10_le(a, (b - 1) as nat);
    } else if b > 0 {
        lemma_pow10_le((a - 1) as nat, (b - 1) as nat);
    }
}

/// Eighteen digits fit a machine word.
proof fn lemma_pow10_18()
    ensures
        pow10(18) == 1_000_000_000_000_000_000,
{
    reveal_with_fuel(pow10, 20);
}

/// Parse the digit range `[start, end)`; the result is its exact
/// value, and a failure means a non-digit stands in the range.
fn parse_digits_range(s: &Vec<char>, start: usize, end: usize) -> (r: Option<u64>)
    requires
        start <= end,
        end <= s@.len(),
        end - start <= 18,
    ensures
        match r {
            Option::Some(v) => all_digits(s@.subrange(start as int, end as int)) && v
                == digits_val(s@.subrange(start as int, end as int)),
            Option::None => !all_digits(s@.subrange(start as int, end as int)),
        },
{
    let mut v: u64 = 0;
    let mut i: usize = start;
    while i < end
        invariant
            start <= i <= end,
            end <= s@.len(),
            end - start <= 18,
            all_digits(s@.subrange(start as int, i as int)),
            v == digits_val(s@.subrange(start as int, i as int)),
            v < 1_000_000_000_000_000_000,
        decreases end - i,
    {
        let c = s[i];
        if c < '0' || c > '9' {
            proof {
                assert(s@.subrange(start as int, end as int)[i - start] == s@[i as int]);
            }
            return None;
        }
        proof {
            let sub1 = s@.subrange(start as int, i + 1);
            assert(sub1.drop_last() =~= s@.subrange(start as int, i as int));
            assert(sub1.last() == s@[i as int]);
            lemma_digits_lt_pow10(s@.subrange(start as int, i as int));
            lemma_pow10_le((i - start) as nat, 17nat);
            lemma_pow10_le(17nat, 18nat);
            lemma_pow10_18();
        }
        let d = (c as u32 - 48) as u64;
        v = v * 10 + d;
        proof {
            lemma_digits_lt_pow10(s@.subrange(start as int, i + 1));
            lemma_pow10_le(((i + 1) - start) as nat, 18nat);
            lemma_pow10_18();
        }
        i = i + 1;
    }
    Some(v)
}

/// Parse an unsigned decimal number of at most eighteen digits.
pub fn parse_u64(s: &Vec<char>) -> (r: Option<u64>)
    ensures
        match r {
            Option::Some(v) => spec_parse_u64(s@) == Option::Some(v as int),
            Option::None => spec_parse_u64(s@) matches Option::None,
        },
{
    let n = s.len();
    if n == 0 || n > 18 {
        return None;
    }
    proof {
        assert(s@.subrange(0, n as int) =~= s@);
    }
    parse_digits_range(s, 0, n)
}

/// The first-occurrence index satisfies its defining properties.
proof fn lemma_idx_of_props(s: Seq<char>, c: char)
    ensures
        0 <= idx_of(s, c) <= s.len(),
        idx_of(s, c) < s.len() ==> s[idx_of(s, c)] == c,
        forall|j: int| 0 <= j < idx_of(s, c) ==> s[j] != c,
    decreases s.len(),
{
    if s.len() > 0 && s.first() != c {
        lemma_idx_of_props(s.drop_first(), c);
        let k = idx_of(s.drop_first(), c);
        assert(idx_of(s, c) == 1 + k);
        assert forall|j: int| 0 <= j < idx_of(s, c) implies s[j] != c by {
            if j > 0 {
                assert(s.drop_first()[j - 1] == s[j]);
                assert(s.drop_first()[j - 1] != c);
            }
        };
        if idx_of(s, c) < s.len() {
            assert(s.drop_first()[k] == s[k + 1]);
        }
    }
}

/// Find the first occurrence of `c`, or the length when absent.
fn find_char(s: &Vec<char>, c: char) -> (r: usize)
    ensures
        r as int == idx_of(s@, c),
        r <= s@.len(),
    {
    let n = s.len();
    let mut i: usize = 0;
    proof {
        lemma_idx_of_props(s@, c);
    }
    while i < n
        invariant
            n == s@.len(),
            i <= n,
            0 <= idx_of(s@, c) <= s@.len(),
            idx_of(s@, c) < s@.len() ==> s@[idx_of(s@, c)] == c,
            forall|j: int| 0 <= j < idx_of(s@, c) ==> s@[j] != c,
            forall|j: int| 0 <= j < i ==> s@[j] != c,
        decreases n - i,
    {
        if s[i] == c {
            proof {
                let k = idx_of(s@, c);
                if k < i {
                    assert(s@[k] != c);
                    assert(s@[k] == c);
                } else if k > i {
                    assert(s@[i as int] != c);
                }
            }
            return i;
        }
        i = i + 1;
    }
    proof {
        if idx_of(s@, c) < n {
            assert(s@[idx_of(s@, c)] == c);
        }
    }
    n
}

/// Parse a fixed-point decimal into raw thousandths.
pub fn parse_fixed(s: &Vec<char>) -> (r: Option<i64>)
    ensures
        match r {
            Option::Some(v) => spec_parse_fixed(s@) == Option::Some(v as int),
            Option::None => spec_parse_fixed(s@) matches Option::None,
        },
{
    let n = s.len();
    let d = find_char(s, '.');
    if d == n {
        if n == 0 || n > 15 {
            return None;
        }
        proof {
            assert(s@.subrange(0, n as int) =~= s@);
            assert(s@.take(d as int) =~= s@);
        }
        match parse_digits_range(s, 0, n) {
            None => None,
            Some(v) => {
                proof {
                    lemma_digits_lt_pow10(s@);
                    lemma_pow10_le(s@.len() as nat, 15nat);
                    reveal_with_fuel(pow10, 20);
                }
                Some((v as i64) * 1000)
            },
        }
    } else {
        let ilen = d;
        let flen = n - d - 1;
        if ilen == 0 || ilen > 15 || flen == 0 || flen > 3 {
            proof {
                assert(s@.take(d as int) =~= s@.subrange(0, d as int));
                assert(s@.skip(d + 1) =~= s@.subrange(d + 1, n as int));
            }
            return None;
        }
        proof {
            assert(s@.take(d as int) =~= s@.subrange(0, d as int));
            assert(s@.skip(d + 1) =~= s@.subrange(d + 1, n as int));
        }
        let ip = parse_digits_range(s, 0, d);
        let fp = parse_digits_range(s, d + 1, n);
        match (ip, fp) {
            (Some(iv), Some(fv)) => {
                proof {
                    lemma_digits_lt_pow10(s@.subrange(0, d as int));
                    lemma_pow10_le(d as nat, 15nat);
                    lemma_digits_lt_pow10(s@.subrange(d + 1, n as int));
                    lemma_pow10_le((n - d - 1) as nat, 3nat);
                    reveal_with_fuel(pow10, 20);
                }
                let mult: i64 = if flen == 1 {
                    100
                } else if flen == 2 {
                    10
                } else {
                    1
                };
                Some((iv as i64) * 1000 + (fv as i64) * mult)
            },
            _ => None,
        }
    }
}

/// Whether `c` is a hexadecimal digit.
pub open spec fn is_hex(c: char) -> bool {
    ('0' <= c <= '9') || ('a' <= c <= 'f') || ('A' <= c <= 'F')
}

/// The value of a hexadecimal digit.
pub open spec fn hex_val(c: char) -> int {
    if '0' <= c <= '9' {
        c as int - '0' as int
    } else if 'a' <= c <= 'f' {
        c as int - 'a' as int + 10
    } else {
        c as int - 'A' as int + 10
    }
}

/// The byte named by two hexadecimal digits.
pub open spec fn hex_byte(a: char, b: char) -> int {
    hex_val(a) * 16 + hex_val(b)
}

/// Whether the material is the one a color-table token names: six
/// leading hexadecimal digits name a flat color, anything else names
/// a texture image.
pub open spec fn material_matches(tok: Seq<char>, m: LSMaterial) -> bool {
    if tok.len() >= 6 && is_hex(tok[0]) && is_hex(tok[1]) && is_hex(tok[2]) && is_hex(tok[3])
        && is_hex(tok[4]) && is_hex(tok[5]) {
        m == LSMaterial::Uniform(
            Color(
                hex_byte(tok[0], tok[1]) as u8,
                hex_byte(tok[2], tok[3]) as u8,
                hex_byte(tok[4], tok[5]) as u8,
            ),
        )
    } else {
        m matches LSMaterial::Texture(t) && t@ == tok
    }
}

/// The end of the whitespace-free token starting at `i`.
pub open spec fn token_end(s: Seq<char>, i: int) -> int
    decreases s.len() - i,
    when 0 <= i <= s.len()
{
    if i >= s.len() {
        i
    } else if s[i] == ' ' {
        i
    } else {
        token_end(s, i + 1)
    }
}

/// The token end lies between its start and the end of the string,
/// strictly after a non-space start, with no space inside the token
/// and a space (or the end) just after it.
pub proof fn lemma_token_end(s: Seq<char>, i: int)
    requires
        0 <= i <= s.len(),
    ensures
        i <= token_end(s, i) <= s.len(),
        i < s.len() && s[i] != ' ' ==> token_end(s, i) > i,
        forall|k: int| i <= k < token_end(s, i) ==> s[k] != ' ',
        token_end(s, i) < s.len() ==> s[token_end(s, i)] == ' ',
    decreases s.len() - i,
{
    if i < s.len() && s[i] != ' ' {
        lemma_token_end(s, i + 1);
    }
}

/// Whether `mats` lists exactly the materials named by the
/// whitespace-separated tokens of `s` from position `i` on.
pub open spec fn colors_match_from(s: Seq<char>, i: int, mats: Seq<LSMaterial>) -> bool
    decreases s.len() - i,
    when 0 <= i <= s.len()
    via colors_match_from_dec
{
    if i >= s.len() {
        mats.len() == 0
    } else if s[i] == ' ' {
        colors_match_from(s, i + 1, mats)
    } else {
        let e = token_end(s, i);
        mats.len() >= 1 && material_matches(s.subrange(i, e), mats.first()) && colors_match_from(
            s,
            e,
            mats.drop_first(),
        )
    }
}

#[via_fn]
proof fn colors_match_from_dec(s: Seq<char>, i: int, mats: Seq<LSMaterial>) {
    if 0 <= i <= s.len() && i < s.len() && s[i] != ' ' {
        lemma_token_end(s, i);
    }
}

/// Whether `c` is a hexadecimal digit.
fn is_hex_c(c: char) -> (b: bool)
    ensures
        b == is_hex(c),
{
    ('0' <= c && c <= '9') || ('a' <= c && c <= 'f') || ('A' <= c && c <= 'F')
}

/// The byte named by two hexadecimal digits.
fn hex_byte_c(a: char, b: char) -> (r: u8)
    requires
        is_hex(a),
        is_hex(b),
    ensures
        r as int == hex_byte(a, b),
{
    let hi: u32 = if '0' <= a && a <= '9' {
        a as u32 - 48
    } else if 'a' <= a && a <= 'f' {
        a as u32 - 97 + 10
    } else {
        a as u32 - 65 + 10
    };
    let lo: u32 = if '0' <= b && b <= '9' {
        b as u32 - 48
    } else if 'a' <= b && b <= 'f' {
        b as u32 - 97 + 10
    } else {
        b as u32 - 65 + 10
    };
    (hi * 16 + lo) as u8
}

/// Read the color table: each whitespace-separated token is a flat
/// color when it starts with six hexadecimal digits, a texture name
/// otherwise.
fn parse_colors(line: &Vec<char>) -> (r: Vec<LSMaterial>)
    ensures
        colors_match_from(line@, 0, r@),
{
    let n = line.len();
    let mut mats: Vec<LSMaterial> = Vec::new();
    let mut i: usize = 0;
    while i < n
        invariant
            n == line@.len(),
            i <= n,
            forall|rest: Seq<LSMaterial>|
                #[trigger] colors_match_from(line@, i as int, rest) ==> colors_match_from(
                    line@,
                    0,
                    mats@ + rest,
                ),
        decreases n - i,
    {
        if line[i] == ' ' {
            proof {
                assert forall|rest: Seq<LSMaterial>|
                    #[trigger] colors_match_from(line@, i + 1, rest) implies colors_match_from(
                    line@,
                    0,
                    mats@ + rest,
                ) by {
                    assert(colors_match_from(line@, i as int, rest));
                };
            }
            i = i + 1;
        } else {
            let start = i;
            let mut j = i;
            while j < n && line[j] != ' '
                invariant
                    n == line@.len(),
                    start <= j <= n,
                    forall|k: int| start <= k < j ==> line@[k] != ' ',
                decreases n - j,
            {
                j = j + 1;
            }
            proof {
                lemma_token_end_eq(line@, start as int, j as int);
            }
            let tok_len = j - start;
            let m: LSMaterial = if tok_len >= 6 && is_hex_c(line[start]) && is_hex_c(
                line[start + 1],
            ) && is_hex_c(line[start + 2]) && is_hex_c(line[start + 3]) && is_hex_c(
                line[start + 4],
            ) && is_hex_c(line[start + 5]) {
                proof {
                    assert(line@.subrange(start as int, j as int)[0] == line@[start as int]);
                    assert(line@.subrange(start as int, j as int)[1] == line@[start + 1]);
                    assert(line@.subrange(start as int, j as int)[2] == line@[start + 2]);
                    assert(line@.subrange(start as int, j as int)[3] == line@[start + 3]);
                    assert(line@.subrange(start as int, j as int)[4] == line@[start + 4]);
                    assert(line@.subrange(start as int, j as int)[5] == line@[start + 5]);
                }
                LSMaterial::Uniform(
                    Color(
                        hex_byte_c(line[start], line[start + 1]),
                        hex_byte_c(line[start + 2], line[start + 3]),
                        hex_byte_c(line[start + 4], line[start + 5]),
                    ),
                )
            } else {
                let mut t = String::new();
                let mut k = start;
                while k < j
                    invariant
                        start <= k <= j <= n,
                        n == line@.len(),
                        t@ == line@.subrange(start as int, k as int),
                    decreases j - k,
                {
                    string_push(&mut t, line[k]);
                    proof {
                        assert(line@.subrange(start as int, k + 1) =~= line@.subrange(
                            start as int,
                            k as int,
                        ).push(line@[k as int]));
                    }
                    k = k + 1;
                }
                proof {
                    if tok_len >= 6 {
                        assert(line@.subrange(start as int, j as int)[0] == line@[start as int]);
                        assert(line@.subrange(start as int, j as int)[1] == line@[start + 1]);
                        assert(line@.subrange(start as int, j as int)[2] == line@[start + 2]);
                        assert(line@.subrange(start as int, j as int)[3] == line@[start + 3]);
                        assert(line@.subrange(start as int, j as int)[4] == line@[start + 4]);
                        assert(line@.subrange(start as int, j as int)[5] == line@[start + 5]);
                    }
                }
                LSMaterial::Texture(t)
            };
            proof {
                assert(material_matches(line@.subrange(start as int, j as int), m));
            }
            let ghost mats0 = mats@;
            mats.push(m);
            proof {
                assert forall|rest: Seq<LSMaterial>|
                    #[trigger] colors_match_from(line@, j as int, rest) implies colors_match_from(
                    line@,
                    0,
                    mats@ + rest,
                ) by {
                    let withm = seq![m] + rest;
                    assert(withm.first() == m);
                    assert(withm.drop_first() =~= rest);
                    assert(withm.len() >= 1);
                    assert(colors_match_from(line@, start as int, withm));
                    assert(colors_match_from(line@, 0, mats0 + withm));
                    assert(mats0 + withm =~= mats@ + rest);
                };
            }
            i = j;
        }
    }
    proof {
        assert(colors_match_from(line@, n as int, Seq::<LSMaterial>::empty()));
        assert(mats@ + Seq::<LSMaterial>::empty() =~= mats@);
    }
    mats
}

/// A scan that stops at a space (or the end) finds the token end.
proof fn lemma_token_end_eq(s: Seq<char>, i: int, j: int)
    requires
        0 <= i <= j <= s.len(),
        forall|k: int| i <= k < j ==> s[k] != ' ',
        j < s.len() ==> s[j] == ' ',
    ensures
        token_end(s, i) == j,
    decreases j - i,
{
    if i < j {
        lemma_token_end_eq(s, i + 1, j);
    }
}

/// The index of the (unique, in a well-formed table) entry keyed `c`.
pub open spec fn key_at(rv: Seq<(char, Seq<Seq<char>>)>, c: char) -> int {
    choose|i: int| 0 <= i < rv.len() && (#[trigger] rv[i]).0 == c
}

/// One rule added to the table: appended to the entry of its symbol,
/// or opening a new entry.
pub open spec fn spec_add(
    rv: Seq<(char, Seq<Seq<char>>)>,
    sym: char,
    rule: Seq<char>,
) -> Seq<(char, Seq<Seq<char>>)> {
    if has_key(rv, sym) {
        rv.update(key_at(rv, sym), (sym, rv[key_at(rv, sym)].1.push(rule)))
    } else {
        rv.push((sym, seq![rule]))
    }
}

/// The rule table built from the rule lines before index `upto`.
pub open spec fn rules_after(lines: Seq<Vec<char>>, upto: int) -> Seq<(char, Seq<Seq<char>>)>
    decreases upto,
{
    if upto <= 7 {
        Seq::empty()
    } else {
        spec_add(rules_after(lines, upto - 1), lines[upto - 1]@[0], lines[upto - 1]@.skip(2))
    }
}

impl LSystem {
    /// Parse a system from its text lines: the age, the angle (in
    /// thousandths of a degree, stored as milliradians), the trunk
    /// depth, the radius and its decay, the color table, the axiom
    /// string, and one rule per remaining line (its first symbol, a
    /// separator, and the replacement).  Numbers follow the fixed
    /// decimal grammar of `spec_parse_u64` and `spec_parse_fixed`;
    /// every rule line needs at least its symbol and separator.
    pub fn from_lines(lines: &Vec<Vec<char>>) -> (r: Result<LSystem, LSError>)
        ensures
            match r {
                Result::Ok(ls) => {
                    &&& lines@.len() >= 7
                    &&& ls.wf()
                    &&& Option::<int>::Some(ls.spec_age()) == spec_parse_u64(lines@[0]@)
                    &&& spec_parse_fixed(lines@[1]@) matches Option::Some(pf) && ls.spec_delta()
                        == crate::num::div_tz(pf * 174_533, 10_000_000)
                    &&& Option::<int>::Some(ls.spec_trunk()) == spec_parse_u64(lines@[2]@)
                    &&& Option::<int>::Some(ls.spec_radius()) == spec_parse_fixed(lines@[3]@)
                    &&& Option::<int>::Some(ls.spec_radius_decrease()) == spec_parse_fixed(
                        lines@[4]@,
                    )
                    &&& colors_match_from(lines@[5]@, 0, ls.spec_colors())
                    &&& ls.spec_value() == lines@[6]@
                    &&& forall|k: int| 7 <= k < lines@.len() ==> (#[trigger] lines@[k])@.len() >= 2
                    &&& ls.spec_rules() == rules_after(lines@, lines@.len() as int)
                },
                Result::Err(e) => {
                    ||| (e == LSError::MissingLine && lines@.len() < 7)
                    ||| (e == LSError::BadNumber && lines@.len() >= 7 && (spec_parse_u64(
                        lines@[0]@,
                    ) matches Option::None || spec_parse_fixed(lines@[1]@) matches Option::None
                        || spec_parse_u64(lines@[2]@) matches Option::None || spec_parse_fixed(
                        lines@[3]@,
                    ) matches Option::None || spec_parse_fixed(lines@[4]@) matches Option::None))
                    ||| (e == LSError::BadRule && lines@.len() >= 7 && exists|k: int|
                        7 <= k < lines@.len() && (#[trigger] lines@[k])@.len() < 2)
                },
            },
    {
        if lines.len() < 7 {
            return Err(LSError::MissingLine);
        }
        let age = match parse_u64(&lines[0]) {
            Some(v) => v,
            None => {
                return Err(LSError::BadNumber);
            },
        };
        let delta_mdeg = match parse_fixed(&lines[1]) {
            Some(v) => v,
            None => {
                return Err(LSError::BadNumber);
            },
        };
        let trunk = match parse_u64(&lines[2]) {
            Some(v) => v,
            None => {
                return Err(LSError::BadNumber);
            },
        };
        let radius = match parse_fixed(&lines[3]) {
            Some(v) => v,
            None => {
                return Err(LSError::BadNumber);
            },
        };
        let radius_decrease = match parse_fixed(&lines[4]) {
            Some(v) => v,
            None => {
                return Err(LSError::BadNumber);
            },
        };
        proof {
            crate::num::lemma_abs_mul_bound(
                delta_mdeg as int,
                174_533,
                10_000_000_000_000_000_000,
                174_533,
            );
            crate::num::lemma_div_tz_bound(
                delta_mdeg as int * 174_533,
                10_000_000,
                1_745_330_000_000_000_000_000_000,
            );
        }
        let delta = crate::num::div_trunc(
            crate::num::mul_ii(delta_mdeg as i128, 174_533),
            10_000_000,
        ) as i64;
        let colors = parse_colors(&lines[5]);
        let axline = &lines[6];
        let mut axioms: Vec<char> = Vec::new();
        let alen = axline.len();
        let mut ai: usize = 0;
        while ai < alen
            invariant
                alen == axline@.len(),
                ai <= alen,
                axioms@ == axline@.take(ai as int),
            decreases alen - ai,
        {
            axioms.push(axline[ai]);
            proof {
                assert(axline@.take(ai + 1) =~= axline@.take(ai as int).push(axline@[ai as int]));
            }
            ai = ai + 1;
        }
        proof {
            assert(axline@.take(alen as int) =~= axline@);
        }
        let mut res = LSystem::new(axioms, age, delta, trunk, radius, radius_decrease).with_colors(
            colors,
        );
        let nlines = lines.len();
        let mut k: usize = 7;
        while k < nlines
            invariant
                nlines == lines@.len(),
                7 <= k <= nlines,
                res.wf(),
                res.spec_rules() == rules_after(lines@, k as int),
                res.spec_value() == lines@[6]@,
                res.spec_age() == age,
                res.spec_delta() == delta,
                res.spec_trunk() == trunk,
                res.spec_radius() == radius,
                res.spec_radius_decrease() == radius_decrease,
                res.spec_colors() == colors@,
                forall|q: int| 7 <= q < k ==> (#[trigger] lines@[q])@.len() >= 2,
            decreases nlines - k,
        {
            let line = &lines[k];
            if line.len() < 2 {
                return Err(LSError::BadRule);
            }
            let sym = line[0];
            let mut rule: Vec<char> = Vec::new();
            let llen = line.len();
            let mut ri: usize = 2;
            while ri < llen
                invariant
                    llen == line@.len(),
                    2 <= ri <= llen,
                    rule@ == line@.subrange(2, ri as int),
                decreases llen - ri,
            {
                rule.push(line[ri]);
                proof {
                    assert(line@.subrange(2, ri + 1) =~= line@.subrange(2, ri as int).push(
                        line@[ri as int],
                    ));
                }
                ri = ri + 1;
            }
            proof {
                assert(line@.subrange(2, llen as int) =~= line@.skip(2));
            }
            let ghost pre = res;
            res.add_rule(sym, rule);
            proof {
                let rv = pre.spec_rules();
                if has_key(rv, sym) {
                    let i0 = choose|i: int|
                        0 <= i < rv.len() && (#[trigger] rv[i]).0 == sym && res.spec_rules()
                            == rv.update(i, (sym, rv[i].1.push(rule@)));
                    let ka = key_at(rv, sym);
                    assert(0 <= ka < rv.len() && rv[ka].0 == sym);
                    if i0 != ka {
                        assert(rv[i0].0 == rv[ka].0);
                    }
                    assert(res.spec_rules() == spec_add(rv, sym, rule@));
                } else {
                    assert(res.spec_rules() == spec_add(rv, sym, rule@));
                }
                assert(rules_after(lines@, k + 1) == spec_add(
                    rules_after(lines@, k as int),
                    lines@[k as int]@[0],
                    lines@[k as int]@.skip(2),
                ));
            }
            k = k + 1;
        }
        Ok(res)
    }
}

/// Appending a legal single-symbol rewriting extends a legal prefix
/// rewriting by one symbol.
proof fn lemma_expansion_step(
    rv: Seq<(char, Seq<Seq<char>>)>,
    input: Seq<char>,
    ci: int,
    prefix: Seq<char>,
    seg: Seq<char>,
)
    requires
        0 <= ci < input.len(),
        valid_expansion(rv, input.take(ci), prefix),
        expands_to(rv, input[ci], seg),
    ensures
        valid_expansion(rv, input.take(ci + 1), prefix + seg),
{
    let out = prefix + seg;
    assert(input.take(ci + 1).drop_last() =~= input.take(ci));
    assert(input.take(ci + 1).last() == input[ci]);
    assert(out.take(prefix.len() as int) =~= prefix);
    assert(out.skip(prefix.len() as int) =~= seg);
    assert(0 <= prefix.len() <= out.len() && valid_expansion(
        rv,
        input.take(ci + 1).drop_last(),
        out.take(prefix.len() as int),
    ) && expands_to(rv, input.take(ci + 1).last(), out.skip(prefix.len() as int)));
}

} // verus!
