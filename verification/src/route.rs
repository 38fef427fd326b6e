//! Route table: which outbound serves each inbound, and whether the
//! destination is resolved before dialing.

use vstd::prelude::*;

use crate::error::{OptionError, OptionErrorView, RouteError, RouteErrorView};

verus! {

/// Mathematical value of a [`RouteRule`].
pub struct RouteRuleView {
    pub dns: bool,
    pub outbound: Seq<char>,
}

/// What an inbound is bound to: an outbound tag and the DNS policy.
#[derive(Debug, Clone, PartialEq, Eq)]
pub struct RouteRule {
    pub dns: bool,
    pub outbound: String,
}

impl View for RouteRule {
    type V = RouteRuleView;

    open spec fn view(&self) -> RouteRuleView {
        RouteRuleView { dns: self.dns, outbound: self.outbound@ }
    }
}

/// Mathematical value of a [`RouteRuleOption`].
pub struct RouteRuleOptionView {
    pub dns: bool,
    pub inbound: Seq<Seq<char>>,
    pub outbound: Seq<char>,
}

/// One declared rule: a set of inbound tags served by one outbound.
#[derive(Debug, Clone, PartialEq, Eq)]
pub struct RouteRuleOption {
    pub dns: bool,
    pub inbound: Vec<String>,
    pub outbound: String,
}

impl View for RouteRuleOption {
    type V = RouteRuleOptionView;

    open spec fn view(&self) -> RouteRuleOptionView {
        RouteRuleOptionView {
            dns: self.dns,
            inbound: self.inbound@.map_values(|t: String| t@),
            outbound: self.outbound@,
        }
    }
}

/// The declared rules, in the order of the configuration.
#[derive(Debug, Clone, PartialEq, Eq)]
pub struct RouteOption {
    pub rules: Vec<RouteRuleOption>,
}

impl View for RouteOption {
    type V = Seq<RouteRuleOptionView>;

    open spec fn view(&self) -> Seq<RouteRuleOptionView> {
        self.rules@.map_values(|r: RouteRuleOption| r@)
    }
}

/// One entry of the table: an inbound tag and the rule bound to it.
pub struct Binding {
    pub tag: Seq<char>,
    pub rule: RouteRuleView,
}

/// The bindings that one declared rule asks for, one per inbound tag.
pub open spec fn rule_bindings(rule: RouteRuleOptionView) -> Seq<Binding> {
    rule.inbound.map_values(
        |t: Seq<char>|
            Binding { tag: t, rule: RouteRuleView { dns: rule.dns, outbound: rule.outbound } },
    )
}

/// All bindings that a configuration asks for, in declaration order.
pub open spec fn bindings(rules: Seq<RouteRuleOptionView>) -> Seq<Binding> {
    rules.map_values(|r: RouteRuleOptionView| rule_bindings(r)).flatten()
}

/// No tag is bound twice.
pub open spec fn distinct_tags(b: Seq<Binding>) -> bool {
    forall|i: int, j: int| 0 <= i < j < b.len() ==> (#[trigger] b[i]).tag != (#[trigger] b[j]).tag
}

/// `j` is the first position whose tag was already bound, and `i` is where.
pub open spec fn first_repeat(b: Seq<Binding>, i: int, j: int) -> bool {
    &&& 0 <= i < j < b.len()
    &&& b[i].tag == b[j].tag
    &&& distinct_tags(b.take(j))
}

/// The error that building the table from `rules` ends in, if any: a
/// duplicate tag that names the outbound of the binding that came first.
pub open spec fn route_fault(rules: Seq<RouteRuleOptionView>) -> Option<RouteErrorView> {
    let b = bindings(rules);
    if distinct_tags(b) {
        None
    } else {
        let (i, j) = choose|i: int, j: int| first_repeat(b, i, j);
        Some(RouteErrorView::Option(OptionErrorView::DuplicateTag(b[i].rule.outbound)))
    }
}

/// There is at most one first repeat.
pub proof fn lemma_first_repeat_unique(b: Seq<Binding>, i: int, j: int, i2: int, j2: int)
    requires
        first_repeat(b, i, j),
        first_repeat(b, i2, j2),
    ensures
        i == i2,
        j == j2,
{
    if j < j2 {
        assert(b.take(j2)[i].tag != b.take(j2)[j].tag);
    } else if j2 < j {
        assert(b.take(j)[i2].tag != b.take(j)[j2].tag);
    } else if i < i2 {
        assert(b.take(j)[i].tag != b.take(j)[i2].tag);
    } else if i2 < i {
        assert(b.take(j)[i2].tag != b.take(j)[i].tag);
    }
}

/// The fault of a configuration whose first repeat is known.
pub proof fn lemma_route_fault(rules: Seq<RouteRuleOptionView>, i: int, j: int)
    requires
        first_repeat(bindings(rules), i, j),
    ensures
        route_fault(rules) == Some(
            RouteErrorView::Option(
                OptionErrorView::DuplicateTag(bindings(rules)[i].rule.outbound),
            ),
        ),
{
    let b = bindings(rules);
    assert(b[i].tag == b[j].tag);
    let (i2, j2) = choose|i2: int, j2: int| first_repeat(b, i2, j2);
    lemma_first_repeat_unique(b, i, j, i2, j2);
}

/// Whether some binding carries `tag`.
pub open spec fn binds(b: Seq<Binding>, tag: Seq<char>) -> bool {
    exists|i: int| 0 <= i < b.len() && (#[trigger] b[i]).tag == tag
}

/// The table as a map from inbound tag to rule.
pub open spec fn table(b: Seq<Binding>) -> Map<Seq<char>, RouteRuleView> {
    Map::new(
        |tag: Seq<char>| binds(b, tag),
        |tag: Seq<char>| b[choose|i: int| 0 <= i < b.len() && (#[trigger] b[i]).tag == tag].rule,
    )
}

/// In a table without repeated tags, every binding is what the map holds.
pub proof fn lemma_table_holds(b: Seq<Binding>, i: int)
    requires
        distinct_tags(b),
        0 <= i < b.len(),
    ensures
        table(b).contains_key(b[i].tag),
        table(b)[b[i].tag] == b[i].rule,
{
    let tag = b[i].tag;
    assert(binds(b, tag));
    let k = choose|k: int| 0 <= k < b.len() && (#[trigger] b[k]).tag == tag;
    if k < i {
        assert(b[k].tag != b[i].tag);
    } else if i < k {
        assert(b[i].tag != b[k].tag);
    }
}

/// One stored entry of the table.
pub struct RouteEntry {
    pub tag: String,
    pub rule: RouteRule,
}

impl View for RouteEntry {
    type V = Binding;

    open spec fn view(&self) -> Binding {
        Binding { tag: self.tag@, rule: self.rule@ }
    }
}

/// Maps each bound inbound tag to its rule. Each tag is bound at most once.
pub struct Route {
    in_to_out: Vec<RouteEntry>,
}

impl View for Route {
    type V = Map<Seq<char>, RouteRuleView>;

    open spec fn view(&self) -> Map<Seq<char>, RouteRuleView> {
        table(self.entries())
    }
}

impl Route {
    /// The bindings in the order in which they were declared.
    pub closed spec fn entries(&self) -> Seq<Binding> {
        self.in_to_out@.map_values(|e: RouteEntry| e@)
    }

    /// The table's invariant: no inbound tag is bound twice.
    #[verifier::type_invariant]
    spec fn distinct(&self) -> bool {
        distinct_tags(self.in_to_out@.map_values(|e: RouteEntry| e@))
    }

    /// Builds the table from the declared rules. Fails on the first inbound
    /// tag that an earlier binding already carries; the error names the
    /// outbound of that earlier binding.
    pub fn init(option: RouteOption) -> (r: Result<Route, RouteError>)
        ensures
            match r {
                Ok(route) => route_fault(option@) is None && route.entries() == bindings(option@)
                    && distinct_tags(route.entries()),
                Err(e) => route_fault(option@) == Some(e@),
            },
    {
        let ghost rules = option@;
        let ghost per_rule = rules.map_values(|r: RouteRuleOptionView| rule_bindings(r));
        let mut in_to_out: Vec<RouteEntry> = Vec::new();
        let mut n: usize = 0;
        assert(per_rule.take(0) =~= Seq::<Seq<Binding>>::empty());
        assert(Seq::<Seq<Binding>>::empty().flatten() =~= Seq::<Binding>::empty());
        while n < option.rules.len()
            invariant
                n <= option.rules.len(),
                rules == option@,
                per_rule == rules.map_values(|r: RouteRuleOptionView| rule_bindings(r)),
                in_to_out@.map_values(|e: RouteEntry| e@) == per_rule.take(n as int).flatten(),
                distinct_tags(per_rule.take(n as int).flatten()),
            decreases option.rules.len() - n,
        {
            let rule = &option.rules[n];
            let ghost done = per_rule.take(n as int).flatten();
            let ghost here = rule_bindings(rule@);
            assert(per_rule[n as int] == here);
            assert(per_rule.take(n as int + 1) =~= per_rule.take(n as int).push(here));
            proof {
                per_rule.take(n as int).lemma_flatten_push(here);
            }
            assert(here.take(0) =~= Seq::<Binding>::empty());
            assert(done + here.take(0) =~= done);
            let mut k: usize = 0;
            while k < rule.inbound.len()
                invariant
                    k <= rule.inbound.len(),
                    n < option.rules.len(),
                    rule == &option.rules[n as int],
                    rules == option@,
                    per_rule == rules.map_values(|r: RouteRuleOptionView| rule_bindings(r)),
                    here == rule_bindings(rule@),
                    here.len() == rule.inbound.len(),
                    per_rule.take(n as int + 1).flatten() == done + here,
                    in_to_out@.map_values(|e: RouteEntry| e@) == done + here.take(k as int),
                    distinct_tags(done + here.take(k as int)),
                decreases rule.inbound.len() - k,
            {
                let in_tag = &rule.inbound[k];
                let ghost bound = done + here.take(k as int);
                assert(here[k as int].tag == in_tag@);
                assert(here.take(k as int + 1) =~= here.take(k as int).push(here[k as int]));
                assert(done + here.take(k as int + 1) =~= bound.push(here[k as int]));
                match find(&in_to_out, in_tag) {
                    Some(at) => {
                        let other = in_to_out[at].rule.outbound.clone();
                        proof {
                            let all = bindings(option@);
                            lemma_flatten_prefix(per_rule, n as int + 1);
                            let j = bound.len() as int;
                            assert(all.take(j + 1) =~= bound.push(here[k as int]));
                            assert(all.take(j) =~= all.take(j + 1).take(j));
                            assert(all.take(j) =~= bound);
                            assert(all[at as int] == all.take(j)[at as int]);
                            assert(all[j] == all.take(j + 1)[j]);
                            assert(first_repeat(all, at as int, j));
                            lemma_route_fault(option@, at as int, j);
                        }
                        return Err(RouteError::Option(OptionError::DuplicateTag(other)));
                    },
                    None => {
                        in_to_out.push(
                            RouteEntry {
                                tag: in_tag.clone(),
                                rule: RouteRule { outbound: rule.outbound.clone(), dns: rule.dns },
                            },
                        );
                        assert(in_to_out@.map_values(|e: RouteEntry| e@) =~= bound.push(
                            here[k as int],
                        ));
                    },
                }
                k += 1;
            }
            assert(here.take(k as int) =~= here);
            n += 1;
        }
        assert(per_rule.take(n as int) =~= per_rule);
        Ok(Route { in_to_out })
    }

    /// The rule bound to `in_tag`, if any.
    pub fn ask_inbound(&self, in_tag: &str) -> (r: Option<&RouteRule>)
        ensures
            r is Some <==> self@.contains_key(in_tag@),
            r matches Some(rule) ==> rule@ == self@[in_tag@],
    {
        proof {
            use_type_invariant(self);
        }
        let key = in_tag.to_owned();
        match find(&self.in_to_out, &key) {
            Some(at) => {
                proof {
                    lemma_table_holds(self.entries(), at as int);
                }
                Some(&self.in_to_out[at].rule)
            },
            None => None,
        }
    }

    /// Number of bindings.
    pub fn len(&self) -> (n: usize)
        ensures
            n == self.entries().len(),
    {
        self.in_to_out.len()
    }

    /// The binding at position `at` in declaration order.
    pub fn entry(&self, at: usize) -> (e: &RouteEntry)
        requires
            at < self.entries().len(),
        ensures
            e@ == self.entries()[at as int],
    {
        &self.in_to_out[at]
    }
}

/// Where the binding for the inbound tag at position `k` of the rule at
/// position `r` stands among all bindings.
pub open spec fn binding_index(rules: Seq<RouteRuleOptionView>, r: int, k: int) -> int {
    bindings(rules.take(r)).len() + k
}

/// Every inbound tag of every rule has its binding, at its index.
pub proof fn lemma_binding_at(rules: Seq<RouteRuleOptionView>, r: int, k: int)
    requires
        0 <= r < rules.len(),
        0 <= k < rules[r].inbound.len(),
    ensures
        0 <= binding_index(rules, r, k) < bindings(rules).len(),
        bindings(rules)[binding_index(rules, r, k)] == rule_bindings(rules[r])[k],
        bindings(rules.take(r + 1)).len() == bindings(rules.take(r)).len()
            + rules[r].inbound.len(),
{
    let per_rule = rules.map_values(|r: RouteRuleOptionView| rule_bindings(r));
    let here = rule_bindings(rules[r]);
    assert(per_rule.take(r) =~= rules.take(r).map_values(
        |r: RouteRuleOptionView| rule_bindings(r),
    ));
    assert(per_rule.take(r + 1) =~= rules.take(r + 1).map_values(
        |r: RouteRuleOptionView| rule_bindings(r),
    ));
    assert(per_rule.take(r + 1) =~= per_rule.take(r).push(here));
    per_rule.take(r).lemma_flatten_push(here);
    lemma_flatten_prefix(per_rule, r + 1);
    let upto = per_rule.take(r + 1).flatten();
    let at = binding_index(rules, r, k);
    assert(upto =~= per_rule.take(r).flatten() + here);
    assert(upto[at] == here[k]);
    assert(per_rule.flatten().take(upto.len() as int)[at] == per_rule.flatten()[at]);
}

/// The bindings of later rules stand behind those of earlier rules.
pub proof fn lemma_binding_order(rules: Seq<RouteRuleOptionView>, r1: int, r2: int)
    requires
        0 <= r1 <= r2 <= rules.len(),
    ensures
        bindings(rules.take(r1)).len() <= bindings(rules.take(r2)).len(),
    decreases r2 - r1,
{
    if r1 < r2 {
        lemma_binding_order(rules, r1, r2 - 1);
        if rules[r2 - 1].inbound.len() > 0 {
            lemma_binding_at(rules, r2 - 1, 0);
        } else {
            let per_rule = rules.map_values(|r: RouteRuleOptionView| rule_bindings(r));
            let here = rule_bindings(rules[r2 - 1]);
            assert(per_rule.take(r2 - 1) =~= rules.take(r2 - 1).map_values(
                |r: RouteRuleOptionView| rule_bindings(r),
            ));
            assert(per_rule.take(r2) =~= rules.take(r2).map_values(
                |r: RouteRuleOptionView| rule_bindings(r),
            ));
            assert(per_rule.take(r2) =~= per_rule.take(r2 - 1).push(here));
            per_rule.take(r2 - 1).lemma_flatten_push(here);
        }
    }
}

/// Rules that name the same inbound tag at two places, in two rules or
/// twice in one, cannot be made into a table: building it ends in a
/// duplicate tag.
pub proof fn lemma_repeated_inbound_rejected(
    rules: Seq<RouteRuleOptionView>,
    r1: int,
    k1: int,
    r2: int,
    k2: int,
)
    requires
        0 <= r1 < rules.len(),
        0 <= k1 < rules[r1].inbound.len(),
        0 <= r2 < rules.len(),
        0 <= k2 < rules[r2].inbound.len(),
        r1 != r2 || k1 != k2,
        rules[r1].inbound[k1] == rules[r2].inbound[k2],
    ensures
        route_fault(rules) matches Some(
            RouteErrorView::Option(OptionErrorView::DuplicateTag(_)),
        ),
{
    let b = bindings(rules);
    let f1 = binding_index(rules, r1, k1);
    let f2 = binding_index(rules, r2, k2);
    lemma_binding_at(rules, r1, k1);
    lemma_binding_at(rules, r2, k2);
    if r1 < r2 {
        lemma_binding_order(rules, r1 + 1, r2);
    } else if r2 < r1 {
        lemma_binding_order(rules, r2 + 1, r1);
    }
    assert(f1 != f2);
    assert(b[f1].tag == b[f2].tag);
    if f1 < f2 {
        assert(!distinct_tags(b));
    } else {
        assert(!distinct_tags(b));
    }
}

/// The flattening of a prefix is a prefix of the flattening.
proof fn lemma_flatten_prefix(parts: Seq<Seq<Binding>>, n: int)
    requires
        0 <= n <= parts.len(),
    ensures
        parts.take(n).flatten().len() <= parts.flatten().len(),
        parts.flatten().take(parts.take(n).flatten().len() as int) == parts.take(n).flatten(),
    decreases parts.len() - n,
{
    broadcast use Seq::lemma_flatten_push;

    if n == parts.len() {
        assert(parts.take(n) =~= parts);
        assert(parts.flatten().take(parts.flatten().len() as int) =~= parts.flatten());
    } else {
        lemma_flatten_prefix(parts, n + 1);
        assert(parts.take(n + 1) =~= parts.take(n).push(parts[n]));
        let short = parts.take(n).flatten();
        let long = parts.take(n + 1).flatten();
        assert(long =~= short + parts[n]);
        assert(parts.flatten().take(short.len() as int) =~= parts.flatten().take(
            long.len() as int,
        ).take(short.len() as int));
        assert(long.take(short.len() as int) =~= short);
    }
}

/// Position of the entry that carries `tag`, if there is one.
fn find(entries: &Vec<RouteEntry>, tag: &String) -> (r: Option<usize>)
    ensures
        r is Some <==> binds(entries@.map_values(|e: RouteEntry| e@), tag@),
        r matches Some(at) ==> at < entries.len() && entries[at as int].tag@ == tag@,
{
    let ghost b = entries@.map_values(|e: RouteEntry| e@);
    let mut at: usize = 0;
    while at < entries.len()
        invariant
            at <= entries.len(),
            b == entries@.map_values(|e: RouteEntry| e@),
            forall|i: int| 0 <= i < at ==> (#[trigger] b[i]).tag != tag@,
        decreases entries.len() - at,
    {
        if entries[at].tag == *tag {
            assert(b[at as int].tag == tag@);
            return Some(at);
        }
        at += 1;
    }
    None
}

} // verus!
