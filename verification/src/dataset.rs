//! Training examples for a conductor: tasks with the shape that each calls
//! for, and the plans that coordinate them.
//!
//! The shape of an example holds by construction: it belongs to the template
//! from which the task was made.
use vstd::prelude::*;
use crate::coordinator::{extract_features, hits, shape_index, shape_word, Shape};
use crate::json::{
    docs, jbool, jnum, jstr, jtexts, lemma_docs_push, num, text, text_list, truth, list, Doc,
    Fields, Json, Number,
};
use crate::json_text::{compact, compact_text, law_compact_text_is_one_line, one_line, whole};
use crate::order::{
    le, lemma_text_le_antisymmetric, lemma_text_le_total, lemma_text_le_transitive, text_le,
};
use crate::scan::{replace, replaced};
use crate::text::{ascii_lower, flat, lemma_flat_push, same, texts};
use crate::vocabulary::{
    added_things, added_things_spec, algorithmic_nouns, algorithmic_nouns_spec,
    algorithmic_words_spec, ambiguity_words_spec, boundary_tasks, boundary_tasks_spec,
    breadth_words_spec, bulk_templates, bulk_templates_spec, call_swaps, call_swaps_spec,
    contested_systems, contested_systems_spec, contested_technologies, contested_technologies_spec,
    contested_templates, contested_templates_spec, correctness_words_spec, debate_aspects,
    debate_aspects_spec, debate_systems, debate_systems_spec, debate_templates,
    debate_templates_spec, edit_sites, edit_sites_spec, focused_tasks, focused_tasks_spec,
    infrastructure_nouns, infrastructure_nouns_spec, labelled_strs, mechanical_templates,
    mechanical_templates_spec, solo_subjects, solo_subjects_spec, solo_templates,
    solo_templates_spec, strs, tiered_actions, tiered_actions_spec, tiered_scopes,
    tiered_scopes_spec, tiered_targets, tiered_targets_spec, volume_words_spec,
};

verus! {

/// What a conductor is told, in training and at work.
pub const CONDUCTOR_SYSTEM: &'static str = "You are Tales' orchestration conductor. Given one coding task, reply ONLY with compact JSON: {\"shape\":\"solo|debate|tiered\",\"difficulty\":0.0-1.0}.\n\nChoose by the task's primary work:\n- solo = one strong model plans AND executes. Use for self-contained correctness-heavy implementation where correctness IS the implementation: algorithms, parsers, data structures, tricky focused bugs, precise logic.\n- debate = two planners argue the approach, then execute. Use for ambiguous, architecture-DEFINING work with no known-correct answer. Triggers: propose, choose, decide, design architecture, select approach, compare strategy, evaluate tradeoffs.\n- tiered = strong models plan, a cheap model executes. Use for voluminous, MECHANICAL, repetitive work across many files/resources, or ONE uniform change applied to MANY sites. Triggers: scaffold, generate for each, migrate, convert, rename, replace, update all, codemod, CRUD pages, boilerplate, every/all/each/throughout/across handlers/endpoints/controllers/files/modules/call sites.\n\nBoundary rules: if the design is already implied and the hard part is volume/repetition, choose tiered, not debate. If a task applies the same change across many sites, choose tiered even when the subsystem sounds architectural or the per-site edit sounds small. If the task asks to propose/choose/decide the architecture/approach/strategy, choose debate, not solo or tiered. difficulty is correctness risk / how unsafe it is to run cheap.";

/// What a conductor that plans is told, in training and at work.
pub const CONDUCTOR_PLAN_SYSTEM: &'static str = "You are TalesSML, the orchestration brain for Tales. Given one coding task, decide HOW to coordinate AI agents to deliver it, and reply with ONE valid JSON object and NOTHING else: no prose, no markdown, no code fences, no comments. Output every field exactly once and stop after the closing brace.\n\nUse ONLY these tokens; never invent others:\n- shape: solo | debate | tiered\n- roster[].role: drafter | critic | executor | inspector | verifier\n- roster[].agent: anthropic | codex\n- roster[].model: opus | sonnet | haiku | gpt-5.x\n- verify.method: tests | review | build | none\n\ndifficulty is a single decimal between 0 and 1 with at most two decimals (e.g. 0.2, 0.6, 0.85). Write it once, as one clean number — no extra digits, no second number, no trailing tokens.\n\nEmit exactly this schema, with the top-level keys in this exact order:\n{\"coordination\":{\"order\":[\"...\"],\"parallelizable\":true,\"handoff\":\"...\"},\"difficulty\":0.6,\"escalate\":{\"if\":[\"...\"],\"to\":{\"agent\":\"anthropic\",\"model\":\"opus\"}},\"rationale\":\"short reason\",\"risks\":[\"...\"],\"roster\":[{\"role\":\"drafter|critic|executor|inspector|verifier\",\"agent\":\"anthropic|codex\",\"model\":\"opus|sonnet|haiku|gpt-5.x\",\"why\":\"capability match\"}],\"schema_version\":1,\"shape\":\"solo|debate|tiered\",\"verify\":{\"required\":true,\"method\":\"tests|review|build|none\",\"agent\":\"codex\"}}\n\nAgents: anthropic (opus=strongest reasoning, sonnet=balanced, haiku=cheap/fast) and codex (gpt-5.x, best inspector). shape: solo=one strong model plans+executes (hard, self-contained); debate=two planners argue then execute (ambiguous, architecture-defining); tiered=strong models plan, a cheap model executes (voluminous, mechanical). Choose the roster, order, verification, and escalation that fit the task's difficulty and risk; coordination.order must list the roster roles in order; escalate to opus when difficulty is high or the task is correctness/security-sensitive.";

// ---- The corpus ------------------------------------------------------------

/// The contents of a list of examples.
pub open spec fn examples(v: Seq<(String, Shape)>) -> Seq<(Seq<char>, Shape)> {
    Seq::new(v.len(), |i: int| (v[i].0@, v[i].1))
}

/// Whether an example comes before another: by its task, and by the place of
/// its shape at the same task.
pub open spec fn before(a: (Seq<char>, Shape), b: (Seq<char>, Shape)) -> bool {
    if a.0 == b.0 {
        shape_index(a.1) < shape_index(b.1)
    } else {
        text_le(a.0, b.0)
    }
}

/// Whether every example comes before the ones behind it.
pub open spec fn ascending(s: Seq<(Seq<char>, Shape)>) -> bool {
    forall|i: int, j: int| 0 <= i < j < s.len() ==> before(#[trigger] s[i], #[trigger] s[j])
}

proof fn lemma_before_transitive(
    a: (Seq<char>, Shape),
    b: (Seq<char>, Shape),
    c: (Seq<char>, Shape),
)
    requires
        before(a, b),
        before(b, c),
    ensures
        before(a, c),
{
    if a.0 != b.0 && b.0 != c.0 {
        lemma_text_le_transitive(a.0, b.0, c.0);
        if a.0 == c.0 {
            lemma_text_le_antisymmetric(a.0, b.0);
        }
    }
}

proof fn lemma_before_total(a: (Seq<char>, Shape), b: (Seq<char>, Shape))
    ensures
        before(a, b) || before(b, a) || a == b,
        !(before(a, b) && before(b, a)),
        before(a, b) ==> a != b,
{
    lemma_text_le_total(a.0, b.0);
    if a.0 != b.0 && before(a, b) && before(b, a) {
        lemma_text_le_antisymmetric(a.0, b.0);
    }
}

/// Whether an example comes before another.
fn comes_before(a: &str, s: Shape, b: &str, t: Shape) -> (r: bool)
    ensures
        r == before((a@, s), (b@, t)),
{
    if same(a, b) {
        s.index() < t.index()
    } else {
        le(a, b)
    }
}

/// Puts an example in its place, unless it is there.
fn insert_example(list: &mut Vec<(String, Shape)>, task: String, shape: Shape)
    requires
        ascending(examples(old(list)@)),
    ensures
        ascending(examples(final(list)@)),
        forall|p: (Seq<char>, Shape)| #[trigger]
            examples(final(list)@).contains(p) <==> examples(old(list)@).contains(p) || p == (
                task@,
                shape,
            ),
{
    let ghost was = examples(list@);
    let ghost item = (task@, shape);
    let mut lo: usize = 0;
    let mut hi: usize = list.len();
    while lo < hi
        invariant
            lo <= hi <= list.len(),
            was == examples(list@),
            item == (task@, shape),
            ascending(was),
            forall|k: int| 0 <= k < lo ==> before(#[trigger] was[k], item),
            forall|k: int| hi <= k < was.len() ==> !before(#[trigger] was[k], item),
        decreases hi - lo,
    {
        let mid: usize = lo + (hi - lo) / 2;
        let below = comes_before(list[mid].0.as_str(), list[mid].1, task.as_str(), shape);
        proof {
            assert(was[mid as int] == (list@[mid as int].0@, list@[mid as int].1));
            assert forall|k: int| 0 <= k <= mid && below implies before(#[trigger] was[k], item) by {
                if k < mid {
                    lemma_before_transitive(was[k], was[mid as int], item);
                }
            }
            assert forall|k: int| mid <= k < was.len() && !below implies !before(
                #[trigger] was[k],
                item,
            ) by {
                if k > mid && before(was[k], item) {
                    lemma_before_transitive(was[mid as int], was[k], item);
                }
            }
        }
        if below {
            lo = mid + 1;
        } else {
            hi = mid;
        }
    }
    if lo < list.len() && list[lo].1 == shape && same(list[lo].0.as_str(), task.as_str()) {
        proof {
            assert(was[lo as int] == item);
            assert(was.contains(item));
        }
        return ;
    }
    list.insert(lo, (task, shape));
    proof {
        let now = examples(list@);
        assert(now =~= was.insert(lo as int, item));
        assert forall|k: int| lo <= k < was.len() implies before(item, #[trigger] was[k]) by {
            lemma_before_total(was[k], item);
            if k == lo {
                assert(was[k] != item);
            } else {
                assert(before(was[lo as int], was[k]));
                if was[k] == item {
                    assert(before(was[lo as int], item));
                }
            }
        }
        assert forall|a: int, b: int| 0 <= a < b < now.len() implies before(
            #[trigger] now[a],
            #[trigger] now[b],
        ) by {
            let x = if a < lo {
                a
            } else {
                a - 1
            };
            let y = if b < lo {
                b
            } else {
                b - 1
            };
            if a != lo {
                assert(now[a] == was[x]);
            }
            if b != lo {
                assert(now[b] == was[y]);
            }
        }
        assert forall|p: (Seq<char>, Shape)| #[trigger] now.contains(p) <==> was.contains(p) || p
            == item by {
            if now.contains(p) {
                let k = choose|k: int| 0 <= k < now.len() && now[k] == p;
                if k < lo {
                    assert(was[k] == p);
                } else if k > lo {
                    assert(was[k - 1] == p);
                }
            }
            if was.contains(p) {
                let k = choose|k: int| 0 <= k < was.len() && was[k] == p;
                if k < lo {
                    assert(now[k] == p);
                } else {
                    assert(now[k + 1] == p);
                }
            }
            if p == item {
                assert(now[lo as int] == p);
            }
        }
    }
}

/// Whether an example is a task of the list, with the shape.
pub open spec fn listed(p: (Seq<char>, Shape), tasks: Seq<Seq<char>>, shape: Shape) -> bool {
    p.1 == shape && tasks.contains(p.0)
}

/// Whether an example is the template with one of the words filled in at the
/// key, with the shape.
pub open spec fn filled(
    p: (Seq<char>, Shape),
    template: Seq<char>,
    key: Seq<char>,
    words: Seq<Seq<char>>,
    shape: Shape,
) -> bool {
    p.1 == shape && exists|j: int|
        0 <= j < words.len() && p.0 == replaced(template, key, #[trigger] words[j])
}

/// Whether an example is one of the templates with one of the words filled in.
pub open spec fn filled_any(
    p: (Seq<char>, Shape),
    templates: Seq<Seq<char>>,
    key: Seq<char>,
    words: Seq<Seq<char>>,
    shape: Shape,
) -> bool {
    exists|i: int| 0 <= i < templates.len() && filled(p, #[trigger] templates[i], key, words, shape)
}

/// Whether an example is one of the templates with a word filled in at each of
/// two keys.
pub open spec fn filled_twice(
    p: (Seq<char>, Shape),
    templates: Seq<Seq<char>>,
    key: Seq<char>,
    words: Seq<Seq<char>>,
    second: Seq<char>,
    others: Seq<Seq<char>>,
    shape: Shape,
) -> bool {
    exists|i: int|
        0 <= i < templates.len() && filled_once_more(
            p,
            #[trigger] templates[i],
            key,
            words,
            second,
            others,
            shape,
        )
}

/// Whether an example is the template with a word filled in at each of two
/// keys.
pub open spec fn filled_once_more(
    p: (Seq<char>, Shape),
    template: Seq<char>,
    key: Seq<char>,
    words: Seq<Seq<char>>,
    second: Seq<char>,
    others: Seq<Seq<char>>,
    shape: Shape,
) -> bool {
    exists|j: int|
        0 <= j < words.len() && filled(
            p,
            replaced(template, key, #[trigger] words[j]),
            second,
            others,
            shape,
        )
}

/// Whether an example is something done to something, perhaps within a scope.
pub open spec fn bulk(p: (Seq<char>, Shape)) -> bool {
    exists|i: int|
        0 <= i < tiered_actions_spec().len() && bulk_action(p, #[trigger] tiered_actions_spec()[i])
}

/// Whether an example is the action done to something.
pub open spec fn bulk_action(p: (Seq<char>, Shape), action: Seq<char>) -> bool {
    exists|j: int|
        0 <= j < tiered_targets_spec().len() && bulk_target(
            p,
            action + " "@ + #[trigger] tiered_targets_spec()[j],
        )
}

/// Whether an example is the deed, perhaps within a scope.
pub open spec fn bulk_target(p: (Seq<char>, Shape), deed: Seq<char>) -> bool {
    p.1 is Tiered && (p.0 == deed || exists|k: int|
        0 <= k < tiered_scopes_spec().len() && p.0 == deed + " "@
            + #[trigger] tiered_scopes_spec()[k])
}

/// Whether an example adds something in many places.
pub open spec fn added(p: (Seq<char>, Shape)) -> bool {
    exists|i: int|
        0 <= i < added_things_spec().len() && added_thing(p, #[trigger] added_things_spec()[i])
}

/// Whether an example adds the thing in many places.
pub open spec fn added_thing(p: (Seq<char>, Shape), thing: Seq<char>) -> bool {
    p.1 is Tiered && exists|j: int|
        0 <= j < edit_sites_spec().len() && p.0 == "add "@ + thing + " to every "@
            + #[trigger] edit_sites_spec()[j] + " across all services"@
}

/// Whether an example belongs to the corpus.
pub open spec fn in_corpus(p: (Seq<char>, Shape)) -> bool {
    ||| filled_any(p, solo_templates_spec(), "{x}"@, solo_subjects_spec(), Shape::Solo)
    ||| bulk(p)
    ||| filled_twice(
        p,
        debate_templates_spec(),
        "{a}"@,
        debate_aspects_spec(),
        "{s}"@,
        debate_systems_spec(),
        Shape::Debate,
    )
    ||| filled_any(p, mechanical_templates_spec(), "{n}"@, algorithmic_nouns_spec(), Shape::Tiered)
    ||| added(p)
    ||| filled_twice(
        p,
        contested_templates_spec(),
        "{s}"@,
        contested_systems_spec(),
        "{t}"@,
        contested_technologies_spec(),
        Shape::Debate,
    )
    ||| listed(p, focused_tasks_spec(), Shape::Solo)
    ||| filled_any(p, bulk_templates_spec(), "{n}"@, infrastructure_nouns_spec(), Shape::Tiered)
    ||| listed(p, call_swaps_spec(), Shape::Tiered)
    ||| boundary_tasks_spec().contains(p)
}

/// Adds the template with each of the words filled in.
fn add_filled(
    list: &mut Vec<(String, Shape)>,
    template: &str,
    key: &str,
    words: &Vec<&'static str>,
    shape: Shape,
)
    requires
        ascending(examples(old(list)@)),
        key@.len() > 0,
    ensures
        ascending(examples(final(list)@)),
        forall|p: (Seq<char>, Shape)| #[trigger]
            examples(final(list)@).contains(p) <==> examples(old(list)@).contains(p) || filled(
                p,
                template@,
                key@,
                strs(words@),
                shape,
            ),
{
    let ghost was = examples(list@);
    let ghost all = strs(words@);
    let mut j: usize = 0;
    proof {
        assert forall|p: (Seq<char>, Shape)| #[trigger] was.contains(p) implies was.contains(p)
            || filled(p, template@, key@, all.take(0), shape) by {}
    }
    while j < words.len()
        invariant
            j <= words.len(),
            key@.len() > 0,
            all == strs(words@),
            ascending(examples(list@)),
            forall|p: (Seq<char>, Shape)| #[trigger]
                examples(list@).contains(p) <==> was.contains(p) || filled(
                    p,
                    template@,
                    key@,
                    all.take(j as int),
                    shape,
                ),
        decreases words.len() - j,
    {
        let task = replace(template, key, words[j]);
        let ghost now = examples(list@);
        let ghost item = (task@, shape);
        insert_example(list, task, shape);
        proof {
            assert forall|p: (Seq<char>, Shape)| #[trigger]
                examples(list@).contains(p) <==> was.contains(p) || filled(
                    p,
                    template@,
                    key@,
                    all.take(j + 1),
                    shape,
                ) by {
                assert(now.contains(p) <==> was.contains(p) || filled(
                    p,
                    template@,
                    key@,
                    all.take(j as int),
                    shape,
                ));
                if filled(p, template@, key@, all.take(j as int), shape) {
                    let k = choose|k: int|
                        0 <= k < all.take(j as int).len() && p.0 == replaced(
                            template@,
                            key@,
                            #[trigger] all.take(j as int)[k],
                        );
                    assert(all.take(j + 1)[k] == all.take(j as int)[k]);
                }
                if p == item {
                    assert(all.take(j + 1)[j as int] == words@[j as int]@);
                }
                if filled(p, template@, key@, all.take(j + 1), shape) {
                    let k = choose|k: int|
                        0 <= k < all.take(j + 1).len() && p.0 == replaced(
                            template@,
                            key@,
                            #[trigger] all.take(j + 1)[k],
                        );
                    if k < j {
                        assert(all.take(j as int)[k] == all.take(j + 1)[k]);
                    }
                }
            }
        }
        j = j + 1;
    }
    proof {
        assert(all.take(j as int) =~= all);
    }
}

/// Adds every template with each of the words filled in.
fn add_templates(
    list: &mut Vec<(String, Shape)>,
    templates: &Vec<&'static str>,
    key: &str,
    words: &Vec<&'static str>,
    shape: Shape,
)
    requires
        ascending(examples(old(list)@)),
        key@.len() > 0,
    ensures
        ascending(examples(final(list)@)),
        forall|p: (Seq<char>, Shape)| #[trigger]
            examples(final(list)@).contains(p) <==> examples(old(list)@).contains(p) || filled_any(
                p,
                strs(templates@),
                key@,
                strs(words@),
                shape,
            ),
{
    let ghost was = examples(list@);
    let ghost all = strs(templates@);
    let mut i: usize = 0;
    while i < templates.len()
        invariant
            i <= templates.len(),
            key@.len() > 0,
            all == strs(templates@),
            ascending(examples(list@)),
            forall|p: (Seq<char>, Shape)| #[trigger]
                examples(list@).contains(p) <==> was.contains(p) || filled_any(
                    p,
                    all.take(i as int),
                    key@,
                    strs(words@),
                    shape,
                ),
        decreases templates.len() - i,
    {
        let ghost now = examples(list@);
        add_filled(list, templates[i], key, words, shape);
        proof {
            assert(all[i as int] == templates@[i as int]@);
            assert forall|p: (Seq<char>, Shape)| #[trigger]
                examples(list@).contains(p) <==> was.contains(p) || filled_any(
                    p,
                    all.take(i + 1),
                    key@,
                    strs(words@),
                    shape,
                ) by {
                assert(now.contains(p) <==> was.contains(p) || filled_any(
                    p,
                    all.take(i as int),
                    key@,
                    strs(words@),
                    shape,
                ));
                if filled_any(p, all.take(i as int), key@, strs(words@), shape) {
                    let k = choose|k: int|
                        0 <= k < i && filled(
                            p,
                            #[trigger] all.take(i as int)[k],
                            key@,
                            strs(words@),
                            shape,
                        );
                    assert(all.take(i + 1)[k] == all.take(i as int)[k]);
                }
                if filled(p, all[i as int], key@, strs(words@), shape) {
                    assert(all.take(i + 1)[i as int] == all[i as int]);
                }
                if filled_any(p, all.take(i + 1), key@, strs(words@), shape) {
                    let k = choose|k: int|
                        0 <= k < i + 1 && filled(
                            p,
                            #[trigger] all.take(i + 1)[k],
                            key@,
                            strs(words@),
                            shape,
                        );
                    if k < i {
                        assert(all.take(i as int)[k] == all.take(i + 1)[k]);
                    }
                }
            }
        }
        i = i + 1;
    }
    proof {
        assert(all.take(i as int) =~= all);
    }
}

/// Adds the template with a word filled in at each of two keys.
fn add_filled_once_more(
    list: &mut Vec<(String, Shape)>,
    template: &str,
    key: &str,
    words: &Vec<&'static str>,
    second: &str,
    others: &Vec<&'static str>,
    shape: Shape,
)
    requires
        ascending(examples(old(list)@)),
        key@.len() > 0,
        second@.len() > 0,
    ensures
        ascending(examples(final(list)@)),
        forall|p: (Seq<char>, Shape)| #[trigger]
            examples(final(list)@).contains(p) <==> examples(old(list)@).contains(p)
                || filled_once_more(
                p,
                template@,
                key@,
                strs(words@),
                second@,
                strs(others@),
                shape,
            ),
{
    let ghost was = examples(list@);
    let ghost all = strs(words@);
    let ghost rest = strs(others@);
    let mut j: usize = 0;
    while j < words.len()
        invariant
            j <= words.len(),
            key@.len() > 0,
            second@.len() > 0,
            all == strs(words@),
            rest == strs(others@),
            ascending(examples(list@)),
            forall|p: (Seq<char>, Shape)| #[trigger]
                examples(list@).contains(p) <==> was.contains(p) || filled_once_more(
                    p,
                    template@,
                    key@,
                    all.take(j as int),
                    second@,
                    rest,
                    shape,
                ),
        decreases words.len() - j,
    {
        let half = replace(template, key, words[j]);
        let ghost now = examples(list@);
        add_filled(list, half.as_str(), second, others, shape);
        proof {
            assert(all[j as int] == words@[j as int]@);
            assert forall|p: (Seq<char>, Shape)| #[trigger]
                examples(list@).contains(p) <==> was.contains(p) || filled_once_more(
                    p,
                    template@,
                    key@,
                    all.take(j + 1),
                    second@,
                    rest,
                    shape,
                ) by {
                assert(now.contains(p) <==> was.contains(p) || filled_once_more(
                    p,
                    template@,
                    key@,
                    all.take(j as int),
                    second@,
                    rest,
                    shape,
                ));
                if filled_once_more(p, template@, key@, all.take(j as int), second@, rest, shape) {
                    let k = choose|k: int|
                        0 <= k < j && filled(
                            p,
                            replaced(template@, key@, #[trigger] all.take(j as int)[k]),
                            second@,
                            rest,
                            shape,
                        );
                    assert(all.take(j + 1)[k] == all.take(j as int)[k]);
                }
                if filled(p, half@, second@, rest, shape) {
                    assert(all.take(j + 1)[j as int] == all[j as int]);
                }
                if filled_once_more(p, template@, key@, all.take(j + 1), second@, rest, shape) {
                    let k = choose|k: int|
                        0 <= k < j + 1 && filled(
                            p,
                            replaced(template@, key@, #[trigger] all.take(j + 1)[k]),
                            second@,
                            rest,
                            shape,
                        );
                    if k < j {
                        assert(all.take(j as int)[k] == all.take(j + 1)[k]);
                    }
                }
            }
        }
        j = j + 1;
    }
    proof {
        assert(all.take(j as int) =~= all);
    }
}

/// Adds every template with a word filled in at each of two keys.
fn add_templates_twice(
    list: &mut Vec<(String, Shape)>,
    templates: &Vec<&'static str>,
    key: &str,
    words: &Vec<&'static str>,
    second: &str,
    others: &Vec<&'static str>,
    shape: Shape,
)
    requires
        ascending(examples(old(list)@)),
        key@.len() > 0,
        second@.len() > 0,
    ensures
        ascending(examples(final(list)@)),
        forall|p: (Seq<char>, Shape)| #[trigger]
            examples(final(list)@).contains(p) <==> examples(old(list)@).contains(p)
                || filled_twice(
                p,
                strs(templates@),
                key@,
                strs(words@),
                second@,
                strs(others@),
                shape,
            ),
{
    let ghost was = examples(list@);
    let ghost all = strs(templates@);
    let ghost one = strs(words@);
    let ghost two = strs(others@);
    let mut i: usize = 0;
    while i < templates.len()
        invariant
            i <= templates.len(),
            key@.len() > 0,
            second@.len() > 0,
            all == strs(templates@),
            one == strs(words@),
            two == strs(others@),
            ascending(examples(list@)),
            forall|p: (Seq<char>, Shape)| #[trigger]
                examples(list@).contains(p) <==> was.contains(p) || filled_twice(
                    p,
                    all.take(i as int),
                    key@,
                    one,
                    second@,
                    two,
                    shape,
                ),
        decreases templates.len() - i,
    {
        let ghost now = examples(list@);
        add_filled_once_more(list, templates[i], key, words, second, others, shape);
        proof {
            assert(all[i as int] == templates@[i as int]@);
            assert forall|p: (Seq<char>, Shape)| #[trigger]
                examples(list@).contains(p) <==> was.contains(p) || filled_twice(
                    p,
                    all.take(i + 1),
                    key@,
                    one,
                    second@,
                    two,
                    shape,
                ) by {
                assert(now.contains(p) <==> was.contains(p) || filled_twice(
                    p,
                    all.take(i as int),
                    key@,
                    one,
                    second@,
                    two,
                    shape,
                ));
                if filled_twice(p, all.take(i as int), key@, one, second@, two, shape) {
                    let k = choose|k: int|
                        0 <= k < i && filled_once_more(
                            p,
                            #[trigger] all.take(i as int)[k],
                            key@,
                            one,
                            second@,
                            two,
                            shape,
                        );
                    assert(all.take(i + 1)[k] == all.take(i as int)[k]);
                }
                if filled_once_more(p, all[i as int], key@, one, second@, two, shape) {
                    assert(all.take(i + 1)[i as int] == all[i as int]);
                }
                if filled_twice(p, all.take(i + 1), key@, one, second@, two, shape) {
                    let k = choose|k: int|
                        0 <= k < i + 1 && filled_once_more(
                            p,
                            #[trigger] all.take(i + 1)[k],
                            key@,
                            one,
                            second@,
                            two,
                            shape,
                        );
                    if k < i {
                        assert(all.take(i as int)[k] == all.take(i + 1)[k]);
                    }
                }
            }
        }
        i = i + 1;
    }
    proof {
        assert(all.take(i as int) =~= all);
    }
}

/// Adds the tasks of a list.
fn add_listed(list: &mut Vec<(String, Shape)>, tasks: &Vec<&'static str>, shape: Shape)
    requires
        ascending(examples(old(list)@)),
    ensures
        ascending(examples(final(list)@)),
        forall|p: (Seq<char>, Shape)| #[trigger]
            examples(final(list)@).contains(p) <==> examples(old(list)@).contains(p) || listed(
                p,
                strs(tasks@),
                shape,
            ),
{
    let ghost was = examples(list@);
    let ghost all = strs(tasks@);
    let mut i: usize = 0;
    while i < tasks.len()
        invariant
            i <= tasks.len(),
            all == strs(tasks@),
            ascending(examples(list@)),
            forall|p: (Seq<char>, Shape)| #[trigger]
                examples(list@).contains(p) <==> was.contains(p) || listed(
                    p,
                    all.take(i as int),
                    shape,
                ),
        decreases tasks.len() - i,
    {
        let ghost now = examples(list@);
        insert_example(list, tasks[i].to_owned(), shape);
        proof {
            assert forall|p: (Seq<char>, Shape)| #[trigger]
                examples(list@).contains(p) <==> was.contains(p) || listed(p, all.take(i + 1), shape) by {
                assert(now.contains(p) <==> was.contains(p) || listed(p, all.take(i as int), shape));
                assert(all.take(i + 1) =~= all.take(i as int).push(all[i as int]));
                lemma_contains_after_push(all.take(i as int), all[i as int], p.0);
            }
        }
        i = i + 1;
    }
    proof {
        assert(all.take(i as int) =~= all);
    }
}

proof fn lemma_contains_after_push<A>(s: Seq<A>, x: A, t: A)
    ensures
        s.push(x).contains(t) <==> s.contains(t) || t == x,
{
    if s.contains(t) {
        let k = choose|k: int| 0 <= k < s.len() && s[k] == t;
        assert(s.push(x)[k] == t);
    }
    if t == x {
        assert(s.push(x)[s.len() as int] == t);
    }
    if s.push(x).contains(t) {
        let k = choose|k: int| 0 <= k < s.push(x).len() && s.push(x)[k] == t;
        if k < s.len() {
            assert(s[k] == t);
        }
    }
}

/// Adds tasks that have a shape each.
fn add_labelled(list: &mut Vec<(String, Shape)>, tasks: &Vec<(&'static str, Shape)>)
    requires
        ascending(examples(old(list)@)),
    ensures
        ascending(examples(final(list)@)),
        forall|p: (Seq<char>, Shape)| #[trigger]
            examples(final(list)@).contains(p) <==> examples(old(list)@).contains(p)
                || labelled_strs(tasks@).contains(p),
{
    let ghost was = examples(list@);
    let ghost all = labelled_strs(tasks@);
    let mut i: usize = 0;
    while i < tasks.len()
        invariant
            i <= tasks.len(),
            all == labelled_strs(tasks@),
            ascending(examples(list@)),
            forall|p: (Seq<char>, Shape)| #[trigger]
                examples(list@).contains(p) <==> was.contains(p) || all.take(i as int).contains(p),
        decreases tasks.len() - i,
    {
        let ghost now = examples(list@);
        insert_example(list, tasks[i].0.to_owned(), tasks[i].1);
        proof {
            assert forall|p: (Seq<char>, Shape)| #[trigger]
                examples(list@).contains(p) <==> was.contains(p) || all.take(i + 1).contains(p) by {
                assert(now.contains(p) <==> was.contains(p) || all.take(i as int).contains(p));
                assert(all.take(i + 1) =~= all.take(i as int).push(all[i as int]));
                lemma_contains_after_push(all.take(i as int), all[i as int], p);
            }
        }
        i = i + 1;
    }
    proof {
        assert(all.take(i as int) =~= all);
    }
}

/// Adds a deed, and the deed within each scope.
fn add_deed(list: &mut Vec<(String, Shape)>, deed: &str)
    requires
        ascending(examples(old(list)@)),
    ensures
        ascending(examples(final(list)@)),
        forall|p: (Seq<char>, Shape)| #[trigger]
            examples(final(list)@).contains(p) <==> examples(old(list)@).contains(p) || bulk_target(
                p,
                deed@,
            ),
{
    let ghost was = examples(list@);
    let scopes = tiered_scopes();
    let ghost all = tiered_scopes_spec();
    insert_example(list, deed.to_owned(), Shape::Tiered);
    let mut k: usize = 0;
    while k < scopes.len()
        invariant
            k <= scopes.len(),
            all == strs(scopes@),
            all == tiered_scopes_spec(),
            ascending(examples(list@)),
            forall|p: (Seq<char>, Shape)| #[trigger]
                examples(list@).contains(p) <==> was.contains(p) || (p.1 is Tiered && (p.0 == deed@
                    || exists|m: int| 0 <= m < k && p.0 == deed@ + " "@ + #[trigger] all[m])),
        decreases scopes.len() - k,
    {
        let mut task = deed.to_owned();
        task.append(" ");
        task.append(scopes[k]);
        let ghost now = examples(list@);
        let ghost item = (task@, Shape::Tiered);
        insert_example(list, task, Shape::Tiered);
        proof {
            assert(item.0 == deed@ + " "@ + all[k as int]);
            assert forall|p: (Seq<char>, Shape)| #[trigger]
                examples(list@).contains(p) <==> was.contains(p) || (p.1 is Tiered && (p.0 == deed@
                    || exists|m: int| 0 <= m < k + 1 && p.0 == deed@ + " "@ + #[trigger] all[m])) by {
                assert(now.contains(p) <==> was.contains(p) || (p.1 is Tiered && (p.0 == deed@
                    || exists|m: int| 0 <= m < k && p.0 == deed@ + " "@ + #[trigger] all[m])));
                assert(examples(list@).contains(p) <==> now.contains(p) || p == item);
            }
        }
        k = k + 1;
    }
}

/// Adds an action done to each of the targets.
fn add_action(list: &mut Vec<(String, Shape)>, action: &str)
    requires
        ascending(examples(old(list)@)),
    ensures
        ascending(examples(final(list)@)),
        forall|p: (Seq<char>, Shape)| #[trigger]
            examples(final(list)@).contains(p) <==> examples(old(list)@).contains(p) || bulk_action(
                p,
                action@,
            ),
{
    let ghost was = examples(list@);
    let targets = tiered_targets();
    let ghost all = tiered_targets_spec();
    let mut j: usize = 0;
    while j < targets.len()
        invariant
            j <= targets.len(),
            all == strs(targets@),
            all == tiered_targets_spec(),
            ascending(examples(list@)),
            forall|p: (Seq<char>, Shape)| #[trigger]
                examples(list@).contains(p) <==> was.contains(p) || (exists|m: int|
                    0 <= m < j && bulk_target(p, action@ + " "@ + #[trigger] all[m])),
        decreases targets.len() - j,
    {
        let mut deed = action.to_owned();
        deed.append(" ");
        deed.append(targets[j]);
        let ghost now = examples(list@);
        add_deed(list, deed.as_str());
        proof {
            assert(deed@ == action@ + " "@ + all[j as int]);
            assert forall|p: (Seq<char>, Shape)| #[trigger]
                examples(list@).contains(p) <==> was.contains(p) || (exists|m: int|
                    0 <= m < j + 1 && bulk_target(p, action@ + " "@ + #[trigger] all[m])) by {
                assert(now.contains(p) <==> was.contains(p) || (exists|m: int|
                    0 <= m < j && bulk_target(p, action@ + " "@ + #[trigger] all[m])));
            }
        }
        j = j + 1;
    }
}

/// Adds the actions done to the targets.
fn add_actions(list: &mut Vec<(String, Shape)>)
    requires
        ascending(examples(old(list)@)),
    ensures
        ascending(examples(final(list)@)),
        forall|p: (Seq<char>, Shape)| #[trigger]
            examples(final(list)@).contains(p) <==> examples(old(list)@).contains(p) || bulk(p),
{
    let ghost was = examples(list@);
    let actions = tiered_actions();
    let ghost all = tiered_actions_spec();
    let mut i: usize = 0;
    while i < actions.len()
        invariant
            i <= actions.len(),
            all == strs(actions@),
            all == tiered_actions_spec(),
            ascending(examples(list@)),
            forall|p: (Seq<char>, Shape)| #[trigger]
                examples(list@).contains(p) <==> was.contains(p) || (exists|m: int|
                    0 <= m < i && bulk_action(p, #[trigger] all[m])),
        decreases actions.len() - i,
    {
        let ghost now = examples(list@);
        add_action(list, actions[i]);
        proof {
            assert(all[i as int] == actions@[i as int]@);
            assert forall|p: (Seq<char>, Shape)| #[trigger]
                examples(list@).contains(p) <==> was.contains(p) || (exists|m: int|
                    0 <= m < i + 1 && bulk_action(p, #[trigger] all[m])) by {
                assert(now.contains(p) <==> was.contains(p) || (exists|m: int|
                    0 <= m < i && bulk_action(p, #[trigger] all[m])));
            }
        }
        i = i + 1;
    }
}

/// Adds a thing that is added at each of the sites.
fn add_thing(list: &mut Vec<(String, Shape)>, thing: &str)
    requires
        ascending(examples(old(list)@)),
    ensures
        ascending(examples(final(list)@)),
        forall|p: (Seq<char>, Shape)| #[trigger]
            examples(final(list)@).contains(p) <==> examples(old(list)@).contains(p) || added_thing(
                p,
                thing@,
            ),
{
    let ghost was = examples(list@);
    let sites = edit_sites();
    let ghost all = edit_sites_spec();
    let mut j: usize = 0;
    while j < sites.len()
        invariant
            j <= sites.len(),
            all == strs(sites@),
            all == edit_sites_spec(),
            ascending(examples(list@)),
            forall|p: (Seq<char>, Shape)| #[trigger]
                examples(list@).contains(p) <==> was.contains(p) || (p.1 is Tiered && exists|m: int|
                    0 <= m < j && p.0 == "add "@ + thing@ + " to every "@ + #[trigger] all[m]
                        + " across all services"@),
        decreases sites.len() - j,
    {
        let mut task = "add ".to_owned();
        task.append(thing);
        task.append(" to every ");
        task.append(sites[j]);
        task.append(" across all services");
        let ghost now = examples(list@);
        let ghost item = (task@, Shape::Tiered);
        insert_example(list, task, Shape::Tiered);
        proof {
            assert(item.0 == "add "@ + thing@ + " to every "@ + all[j as int]
                + " across all services"@);
            assert forall|p: (Seq<char>, Shape)| #[trigger]
                examples(list@).contains(p) <==> was.contains(p) || (p.1 is Tiered && exists|m: int|
                    0 <= m < j + 1 && p.0 == "add "@ + thing@ + " to every "@ + #[trigger] all[m]
                        + " across all services"@) by {
                assert(now.contains(p) <==> was.contains(p) || (p.1 is Tiered && exists|m: int|
                    0 <= m < j && p.0 == "add "@ + thing@ + " to every "@ + #[trigger] all[m]
                        + " across all services"@));
                assert(examples(list@).contains(p) <==> now.contains(p) || p == item);
            }
        }
        j = j + 1;
    }
}

/// Adds the things that are added at the sites.
fn add_things(list: &mut Vec<(String, Shape)>)
    requires
        ascending(examples(old(list)@)),
    ensures
        ascending(examples(final(list)@)),
        forall|p: (Seq<char>, Shape)| #[trigger]
            examples(final(list)@).contains(p) <==> examples(old(list)@).contains(p) || added(p),
{
    let ghost was = examples(list@);
    let things = added_things();
    let ghost all = added_things_spec();
    let mut i: usize = 0;
    while i < things.len()
        invariant
            i <= things.len(),
            all == strs(things@),
            all == added_things_spec(),
            ascending(examples(list@)),
            forall|p: (Seq<char>, Shape)| #[trigger]
                examples(list@).contains(p) <==> was.contains(p) || (exists|m: int|
                    0 <= m < i && added_thing(p, #[trigger] all[m])),
        decreases things.len() - i,
    {
        let ghost now = examples(list@);
        add_thing(list, things[i]);
        proof {
            assert(all[i as int] == things@[i as int]@);
            assert forall|p: (Seq<char>, Shape)| #[trigger]
                examples(list@).contains(p) <==> was.contains(p) || (exists|m: int|
                    0 <= m < i + 1 && added_thing(p, #[trigger] all[m])) by {
                assert(now.contains(p) <==> was.contains(p) || (exists|m: int|
                    0 <= m < i && added_thing(p, #[trigger] all[m])));
            }
        }
        i = i + 1;
    }
}

/// The corpus: every template with every word, in order and each example once.
pub fn generate() -> (r: Vec<(String, Shape)>)
    ensures
        ascending(examples(r@)),
        forall|p: (Seq<char>, Shape)| #[trigger] examples(r@).contains(p) <==> in_corpus(p),
{
    let mut out: Vec<(String, Shape)> = Vec::new();
    proof {
        reveal_strlit("{x}");
        reveal_strlit("{a}");
        reveal_strlit("{s}");
        reveal_strlit("{n}");
        reveal_strlit("{t}");
        assert forall|p: (Seq<char>, Shape)| !#[trigger] examples(out@).contains(p) by {}
    }
    add_templates(&mut out, &solo_templates(), "{x}", &solo_subjects(), Shape::Solo);
    add_actions(&mut out);
    add_templates_twice(
        &mut out,
        &debate_templates(),
        "{a}",
        &debate_aspects(),
        "{s}",
        &debate_systems(),
        Shape::Debate,
    );
    add_templates(&mut out, &mechanical_templates(), "{n}", &algorithmic_nouns(), Shape::Tiered);
    add_things(&mut out);
    add_templates_twice(
        &mut out,
        &contested_templates(),
        "{s}",
        &contested_systems(),
        "{t}",
        &contested_technologies(),
        Shape::Debate,
    );
    add_listed(&mut out, &focused_tasks(), Shape::Solo);
    add_templates(&mut out, &bulk_templates(), "{n}", &infrastructure_nouns(), Shape::Tiered);
    add_listed(&mut out, &call_swaps(), Shape::Tiered);
    add_labelled(&mut out, &boundary_tasks());
    out
}

/// Two lists that hold the corpus in order, each example once, are the same:
/// every generation gives the same corpus.
pub proof fn law_generation_is_reproducible(
    a: Seq<(Seq<char>, Shape)>,
    b: Seq<(Seq<char>, Shape)>,
)
    requires
        ascending(a),
        ascending(b),
        forall|p: (Seq<char>, Shape)| #[trigger] a.contains(p) <==> in_corpus(p),
        forall|p: (Seq<char>, Shape)| #[trigger] b.contains(p) <==> in_corpus(p),
    ensures
        a == b,
{
    assert(forall|p: (Seq<char>, Shape)| #[trigger] a.contains(p) <==> b.contains(p)) by {
        assert forall|p: (Seq<char>, Shape)| #[trigger] a.contains(p) <==> b.contains(p) by {
            assert(a.contains(p) <==> in_corpus(p));
            assert(b.contains(p) <==> in_corpus(p));
        }
    }
    lemma_same_examples(a, b, 0);
}

proof fn lemma_same_examples(a: Seq<(Seq<char>, Shape)>, b: Seq<(Seq<char>, Shape)>, n: int)
    requires
        ascending(a),
        ascending(b),
        forall|p: (Seq<char>, Shape)| #[trigger] a.contains(p) <==> b.contains(p),
        0 <= n <= a.len(),
        n <= b.len(),
        forall|k: int| 0 <= k < n ==> #[trigger] a[k] == b[k],
    ensures
        a == b,
    decreases a.len() - n,
{
    if n < a.len() {
        assert(a.contains(a[n]));
        assert(b.contains(a[n]));
    }
    if n < b.len() {
        assert(b.contains(b[n]));
        assert(a.contains(b[n]));
    }
    if n == a.len() || n == b.len() {
        if n < b.len() {
            let k = choose|k: int| 0 <= k < a.len() && a[k] == b[n];
            assert(a[k] == b[k]);
            lemma_before_total(b[k], b[n]);
        }
        if n < a.len() {
            let k = choose|k: int| 0 <= k < b.len() && b[k] == a[n];
            assert(a[k] == b[k]);
            lemma_before_total(a[k], a[n]);
        }
        assert(a =~= b);
    } else {
        let k = choose|k: int| 0 <= k < b.len() && b[k] == a[n];
        let m = choose|m: int| 0 <= m < a.len() && a[m] == b[n];
        if k < n {
            assert(a[k] == b[k]);
            lemma_before_total(a[k], a[n]);
        }
        if m < n {
            assert(a[m] == b[m]);
            lemma_before_total(b[m], b[n]);
        }
        if k > n && m > n {
            assert(before(b[n], b[k]));
            assert(before(a[n], a[m]));
            lemma_before_total(a[n], b[n]);
        }
        assert(a[n] == b[n]);
        lemma_same_examples(a, b, n + 1);
    }
}

/// How many examples of a corpus have the shape at a place.
pub open spec fn count_of(corpus: Seq<(String, Shape)>, place: nat) -> nat {
    corpus.filter(|e: (String, Shape)| shape_index(e.1) == place).len()
}

/// How many examples of a corpus there are of each shape.
pub fn shape_counts(corpus: &[(String, Shape)]) -> (r: [usize; 3])
    ensures
        r@ == seq![
            count_of(corpus@, 0) as usize,
            count_of(corpus@, 1) as usize,
            count_of(corpus@, 2) as usize,
        ],
        count_of(corpus@, 0) + count_of(corpus@, 1) + count_of(corpus@, 2) == corpus@.len(),
{
    let mut solo: usize = 0;
    let mut debate: usize = 0;
    let mut tiered: usize = 0;
    let mut i: usize = 0;
    let ghost k0 = |e: (String, Shape)| shape_index(e.1) == 0;
    let ghost k1 = |e: (String, Shape)| shape_index(e.1) == 1;
    let ghost k2 = |e: (String, Shape)| shape_index(e.1) == 2;
    proof {
        assert(corpus@.take(0).filter(k0) =~= Seq::empty());
        assert(corpus@.take(0).filter(k1) =~= Seq::empty());
        assert(corpus@.take(0).filter(k2) =~= Seq::empty());
    }
    while i < corpus.len()
        invariant
            i <= corpus@.len(),
            solo + debate + tiered == i,
            k0 == (|e: (String, Shape)| shape_index(e.1) == 0),
            k1 == (|e: (String, Shape)| shape_index(e.1) == 1),
            k2 == (|e: (String, Shape)| shape_index(e.1) == 2),
            solo == corpus@.take(i as int).filter(k0).len(),
            debate == corpus@.take(i as int).filter(k1).len(),
            tiered == corpus@.take(i as int).filter(k2).len(),
        decreases corpus@.len() - i,
    {
        proof {
            let done = corpus@.take(i as int);
            done.lemma_filter_push(corpus@[i as int], k0);
            done.lemma_filter_push(corpus@[i as int], k1);
            done.lemma_filter_push(corpus@[i as int], k2);
            assert(corpus@.take(i + 1) =~= done.push(corpus@[i as int]));
        }
        match corpus[i].1 {
            Shape::Solo => {
                solo = solo + 1;
            },
            Shape::Debate => {
                debate = debate + 1;
            },
            Shape::Tiered => {
                tiered = tiered + 1;
            },
        }
        i = i + 1;
    }
    let r: [usize; 3] = [solo, debate, tiered];
    proof {
        assert(corpus@.take(i as int) =~= corpus@);
        assert(r@ =~= seq![
            count_of(corpus@, 0) as usize,
            count_of(corpus@, 1) as usize,
            count_of(corpus@, 2) as usize,
        ]);
    }
    r
}

// ---- Lines -----------------------------------------------------------------

/// A message of a conversation.
pub open spec fn message_doc(role: Seq<char>, content: Seq<char>) -> Doc {
    Doc::Obj(seq![("content"@, jstr(content)), ("role"@, jstr(role))])
}

/// A conversation in which the conductor answers a task.
pub open spec fn conversation_doc(system: Seq<char>, task: Seq<char>, answer: Seq<char>) -> Doc {
    Doc::Obj(
        seq![
            (
                "messages"@,
                Doc::Arr(
                    seq![
                        message_doc("system"@, system),
                        message_doc("user"@, task),
                        message_doc("assistant"@, answer),
                    ],
                ),
            ),
        ],
    )
}

fn message(role: &str, content: &str) -> (r: Json)
    ensures
        r@ == message_doc(role@, content@),
{
    let mut f = Fields::new();
    f.put("content", text(content));
    f.put("role", text(role));
    proof {
        assert(f@ =~= message_doc(role@, content@)->Obj_0);
    }
    f.object()
}

/// A conversation in which the conductor answers a task, as one line.
fn conversation_line(system: &str, task: &str, answer: &str) -> (r: String)
    ensures
        r@ == compact_text(conversation_doc(system@, task@, answer@)),
{
    let ghost goal = conversation_doc(system@, task@, answer@);
    let mut messages: Vec<Json> = Vec::new();
    let a = message("system", system);
    let b = message("user", task);
    let c = message("assistant", answer);
    proof {
        lemma_docs_push(messages@, a);
        lemma_docs_push(messages@.push(a), b);
        lemma_docs_push(messages@.push(a).push(b), c);
    }
    messages.push(a);
    messages.push(b);
    messages.push(c);
    let mut f = Fields::new();
    proof {
        assert(docs(messages@) =~= goal->Obj_0[0].1->Arr_0);
    }
    f.put("messages", list(messages));
    proof {
        assert(f@ =~= goal->Obj_0);
        reveal_with_fuel(whole, 5);
        assert(whole(goal));
    }
    compact(&f.object())
}

/// The difficulty that goes with a shape, to two places.
pub open spec fn difficulty_label(s: Shape) -> Seq<char> {
    match s {
        Shape::Solo => "0.85"@,
        Shape::Debate => "0.60"@,
        Shape::Tiered => "0.20"@,
    }
}

/// The decision that goes with a shape.
pub open spec fn decision_text(s: Shape) -> Seq<char> {
    "{\"shape\":\""@ + shape_word(s) + "\",\"difficulty\":"@ + difficulty_label(s) + "}"@
}

/// The line of an example.
#[verifier::opaque]
pub open spec fn chat_line_text(e: (Seq<char>, Shape)) -> Seq<char> {
    compact_text(conversation_doc(CONDUCTOR_SYSTEM@, e.0, decision_text(e.1)))
}

/// An example as one line.
pub fn chat_line(task: &str, shape: Shape) -> (r: String)
    ensures
        r@ == chat_line_text((task@, shape)),
{
    let mut answer = "{\"shape\":\"".to_owned();
    answer.append(shape.as_str());
    answer.append("\",\"difficulty\":");
    answer.append(
        match shape {
            Shape::Solo => "0.85",
            Shape::Debate => "0.60",
            Shape::Tiered => "0.20",
        },
    );
    answer.append("}");
    proof {
        reveal(chat_line_text);
    }
    conversation_line(CONDUCTOR_SYSTEM, task, answer.as_str())
}

/// A corpus, a line for each example.
pub fn to_chat_jsonl(corpus: &[(String, Shape)]) -> (r: String)
    ensures
        r@ == flat(
            Seq::new(
                corpus@.len(),
                |i: int| chat_line_text((corpus@[i].0@, corpus@[i].1)) + "\n"@,
            ),
        ),
{
    let ghost line = |i: int| chat_line_text((corpus@[i].0@, corpus@[i].1)) + "\n"@;
    let mut out = String::new();
    let mut i: usize = 0;
    proof {
        assert(flat(Seq::new(0, line)) =~= Seq::empty());
    }
    while i < corpus.len()
        invariant
            i <= corpus@.len(),
            line == (|i: int| chat_line_text((corpus@[i].0@, corpus@[i].1)) + "\n"@),
            out@ == flat(Seq::new(i as nat, line)),
        decreases corpus@.len() - i,
    {
        let one = chat_line(corpus[i].0.as_str(), corpus[i].1);
        out.append(one.as_str());
        out.append("\n");
        proof {
            lemma_flat_push(Seq::new(i as nat, line), line(i as int));
            assert(Seq::new((i + 1) as nat, line) =~= Seq::new(i as nat, line).push(line(i as int)));
            assert(out@ =~= flat(Seq::new(i as nat, line)) + line(i as int));
        }
        i = i + 1;
    }
    out
}

// ---- Plans -----------------------------------------------------------------

/// Whether a task holds one of the words, whatever the case of its letters.
pub open spec fn touches(task: Seq<char>, words: Seq<Seq<char>>) -> bool {
    hits(ascii_lower(task), words) >= 1
}

/// Whether a task of a shape wants a strong model.
pub open spec fn is_hard(task: Seq<char>, s: Shape) -> bool {
    s is Solo || touches(task, correctness_words_spec())
}

/// A seat of a plan: its role, its agent, its model, and why.
pub struct SeatRow {
    pub role: Seq<char>,
    pub agent: Seq<char>,
    pub model: Seq<char>,
    pub why: Seq<char>,
}

/// The model that executes.
pub open spec fn exec_model(hard: bool) -> Seq<char> {
    if hard {
        "opus"@
    } else {
        "sonnet"@
    }
}

/// The seats of a plan.
pub open spec fn roster_rows(s: Shape, hard: bool) -> Seq<SeatRow> {
    match s {
        Shape::Solo => seq![
            SeatRow {
                role: "executor"@,
                agent: "anthropic"@,
                model: exec_model(hard),
                why: "self-contained correctness-heavy work needs one strong model"@,
            },
            SeatRow {
                role: "verifier"@,
                agent: "codex"@,
                model: "gpt-5.x"@,
                why: "tests/review confirm the implementation is correct"@,
            },
        ],
        Shape::Debate => seq![
            SeatRow {
                role: "drafter"@,
                agent: "anthropic"@,
                model: "sonnet"@,
                why: "proposes the architecture/approach"@,
            },
            SeatRow {
                role: "critic"@,
                agent: "codex"@,
                model: "gpt-5.x"@,
                why: "independent review surfaces design flaws"@,
            },
            SeatRow {
                role: "executor"@,
                agent: "anthropic"@,
                model: exec_model(hard),
                why: "implements the agreed design"@,
            },
            SeatRow {
                role: "inspector"@,
                agent: "codex"@,
                model: "gpt-5.x"@,
                why: "checks the result against the agreed design"@,
            },
        ],
        Shape::Tiered => seq![
            SeatRow {
                role: "drafter"@,
                agent: "anthropic"@,
                model: "sonnet"@,
                why: "plans the repetitive change once"@,
            },
            SeatRow {
                role: "executor"@,
                agent: "anthropic"@,
                model: "haiku"@,
                why: "a cheap, fast model applies the mechanical change"@,
            },
            SeatRow {
                role: "inspector"@,
                agent: "codex"@,
                model: "gpt-5.x"@,
                why: "spot-checks the bulk edit"@,
            },
            SeatRow {
                role: "verifier"@,
                agent: "codex"@,
                model: "gpt-5.x"@,
                why: "tests confirm nothing broke"@,
            },
        ],
    }
}

/// In which order the roles act.
pub open spec fn role_order(s: Shape) -> Seq<Seq<char>> {
    match s {
        Shape::Solo => seq!["executor"@, "verifier"@],
        Shape::Debate => seq!["drafter"@, "critic"@, "executor"@, "inspector"@],
        Shape::Tiered => seq!["drafter"@, "executor"@, "inspector"@, "verifier"@],
    }
}

/// How the result is verified.
pub open spec fn verify_method(s: Shape) -> Seq<char> {
    if s is Debate {
        "review"@
    } else {
        "tests"@
    }
}

/// What may go wrong.
pub open spec fn risk_list(task: Seq<char>) -> Seq<Seq<char>> {
    (if touches(task, ambiguity_words_spec()) {
        seq!["unclear requirements"@]
    } else {
        Seq::empty()
    }) + (if touches(task, breadth_words_spec()) {
        seq!["large blast radius"@]
    } else {
        Seq::empty()
    }) + (if touches(task, correctness_words_spec()) {
        seq!["correctness-critical"@]
    } else {
        Seq::empty()
    })
}

/// When a stronger model takes over.
pub open spec fn escalation_causes(task: Seq<char>, s: Shape) -> Seq<Seq<char>> {
    seq!["failed_verification"@] + (if !is_hard(task, s) {
        seq!["low_confidence"@]
    } else {
        Seq::empty()
    }) + (if touches(task, correctness_words_spec()) {
        seq!["security_sensitive"@]
    } else {
        Seq::empty()
    })
}

/// What drives the plan.
pub open spec fn plan_driver(task: Seq<char>) -> Seq<char> {
    if touches(task, algorithmic_words_spec()) {
        "algorithmic difficulty"@
    } else if touches(task, volume_words_spec()) {
        "mechanical volume"@
    } else if touches(task, ambiguity_words_spec()) {
        "architectural ambiguity"@
    } else if touches(task, correctness_words_spec()) {
        "correctness risk"@
    } else {
        "the task shape"@
    }
}

/// Why the plan is as it is.
pub open spec fn plan_reason(task: Seq<char>, s: Shape) -> Seq<char> {
    plan_driver(task) + (match s {
        Shape::Solo => ": one strong model implements, an inspector verifies"@,
        Shape::Debate => ": two planners debate the approach before a strong model executes"@,
        Shape::Tiered => ": strong models plan once, a cheap model executes the bulk, an inspector checks"@,
    })
}

/// The bits of the double nearest to the difficulty of a shape.
pub open spec fn difficulty_bits(s: Shape) -> u64 {
    match s {
        Shape::Solo => 0x3feb333333333333,
        Shape::Debate => 0x3fe3333333333333,
        Shape::Tiered => 0x3fc999999999999a,
    }
}

/// The difficulty of a shape as a plan shows it.
pub open spec fn difficulty_short(s: Shape) -> Seq<char> {
    match s {
        Shape::Solo => "0.85"@,
        Shape::Debate => "0.6"@,
        Shape::Tiered => "0.2"@,
    }
}

pub open spec fn seat_doc(row: SeatRow) -> Doc {
    Doc::Obj(
        seq![
            ("agent"@, jstr(row.agent)),
            ("model"@, jstr(row.model)),
            ("role"@, jstr(row.role)),
            ("why"@, jstr(row.why)),
        ],
    )
}

pub open spec fn roster_doc(rows: Seq<SeatRow>) -> Doc {
    Doc::Arr(Seq::new(rows.len(), |i: int| seat_doc(rows[i])))
}

pub open spec fn coordination_doc(s: Shape) -> Doc {
    Doc::Obj(
        seq![
            ("handoff"@, jstr("brief context + explicit acceptance criteria"@)),
            ("order"@, jtexts(role_order(s))),
            ("parallelizable"@, jbool(s is Debate)),
        ],
    )
}

pub open spec fn escalate_doc(task: Seq<char>, s: Shape) -> Doc {
    Doc::Obj(
        seq![
            ("if"@, jtexts(escalation_causes(task, s))),
            (
                "to"@,
                Doc::Obj(seq![("agent"@, jstr("anthropic"@)), ("model"@, jstr("opus"@))]),
            ),
        ],
    )
}

pub open spec fn verify_doc(s: Shape) -> Doc {
    Doc::Obj(
        seq![
            ("agent"@, jstr("codex"@)),
            ("method"@, jstr(verify_method(s))),
            ("required"@, jbool(true)),
        ],
    )
}

/// The plan for a task of a shape.
pub open spec fn plan_doc(task: Seq<char>, s: Shape) -> Doc {
    Doc::Obj(
        seq![
            ("coordination"@, coordination_doc(s)),
            ("difficulty"@, Doc::Num(Number::Real(difficulty_bits(s)))),
            ("escalate"@, escalate_doc(task, s)),
            ("rationale"@, jstr(plan_reason(task, s))),
            ("risks"@, jtexts(risk_list(task))),
            ("roster"@, roster_doc(roster_rows(s, is_hard(task, s)))),
            ("schema_version"@, jnum(1)),
            ("shape"@, jstr(shape_word(s))),
            ("verify"@, verify_doc(s)),
        ],
    )
}

/// The plan for a task of a shape as text.
pub open spec fn plan_text(task: Seq<char>, s: Shape) -> Seq<char> {
    "{\"coordination\":"@ + compact_text(coordination_doc(s)) + ",\"difficulty\":"@
        + difficulty_short(s) + ",\"escalate\":"@ + compact_text(escalate_doc(task, s))
        + ",\"rationale\":"@ + compact_text(jstr(plan_reason(task, s))) + ",\"risks\":"@
        + compact_text(jtexts(risk_list(task))) + ",\"roster\":"@ + compact_text(
        roster_doc(roster_rows(s, is_hard(task, s))),
    ) + ",\"schema_version\":1,\"shape\":"@ + compact_text(jstr(shape_word(s))) + ",\"verify\":"@
        + compact_text(verify_doc(s)) + "}"@
}

/// The roles act in the order in which the roster seats them.
pub proof fn law_order_lists_the_roster(s: Shape, hard: bool)
    ensures
        role_order(s) == Seq::new(roster_rows(s, hard).len(), |i: int| roster_rows(s, hard)[i].role),
{
    assert(role_order(s) =~= Seq::new(
        roster_rows(s, hard).len(),
        |i: int| roster_rows(s, hard)[i].role,
    ));
}

/// Every seat of a plan is taken by one of the two agents, and some seat
/// executes.
pub proof fn law_seats_are_taken_by_known_agents(s: Shape, hard: bool)
    ensures
        roster_rows(s, hard).len() > 0,
        forall|i: int|
            0 <= i < roster_rows(s, hard).len() ==> (#[trigger] roster_rows(s, hard)[i]).agent
                == "anthropic"@ || roster_rows(s, hard)[i].agent == "codex"@,
        exists|i: int|
            0 <= i < roster_rows(s, hard).len() && (#[trigger] roster_rows(s, hard)[i]).role
                == "executor"@,
{
    let rows = roster_rows(s, hard);
    match s {
        Shape::Solo => {
            assert(rows[0].role == "executor"@);
        },
        Shape::Debate => {
            assert(rows[2].role == "executor"@);
        },
        Shape::Tiered => {
            assert(rows[1].role == "executor"@);
        },
    }
}

fn seat(role: &str, agent: &str, model: &str, why: &str) -> (r: Json)
    ensures
        r@ == seat_doc(SeatRow { role: role@, agent: agent@, model: model@, why: why@ }),
{
    let mut f = Fields::new();
    f.put("agent", text(agent));
    f.put("model", text(model));
    f.put("role", text(role));
    f.put("why", text(why));
    proof {
        assert(f@ =~= seat_doc(
            SeatRow { role: role@, agent: agent@, model: model@, why: why@ },
        )->Obj_0);
    }
    f.object()
}

fn roster(shape: Shape, hard: bool) -> (r: Json)
    ensures
        r@ == roster_doc(roster_rows(shape, hard)),
{
    let model: &str = if hard {
        "opus"
    } else {
        "sonnet"
    };
    let seats: Vec<Json> = match shape {
        Shape::Solo => vec![
            seat(
                "executor",
                "anthropic",
                model,
                "self-contained correctness-heavy work needs one strong model",
            ),
            seat(
                "verifier",
                "codex",
                "gpt-5.x",
                "tests/review confirm the implementation is correct",
            ),
        ],
        Shape::Debate => vec![
            seat("drafter", "anthropic", "sonnet", "proposes the architecture/approach"),
            seat("critic", "codex", "gpt-5.x", "independent review surfaces design flaws"),
            seat("executor", "anthropic", model, "implements the agreed design"),
            seat("inspector", "codex", "gpt-5.x", "checks the result against the agreed design"),
        ],
        Shape::Tiered => vec![
            seat("drafter", "anthropic", "sonnet", "plans the repetitive change once"),
            seat(
                "executor",
                "anthropic",
                "haiku",
                "a cheap, fast model applies the mechanical change",
            ),
            seat("inspector", "codex", "gpt-5.x", "spot-checks the bulk edit"),
            seat("verifier", "codex", "gpt-5.x", "tests confirm nothing broke"),
        ],
    };
    proof {
        assert(docs(seats@) =~= roster_doc(roster_rows(shape, hard))->Arr_0);
    }
    list(seats)
}

/// A list of texts as a document.
fn words_doc(words: Vec<&'static str>) -> (r: Json)
    ensures
        r@ == jtexts(strs(words@)),
{
    let mut owned: Vec<String> = Vec::new();
    let mut i: usize = 0;
    while i < words.len()
        invariant
            i <= words.len(),
            texts(owned@) == strs(words@).take(i as int),
        decreases words.len() - i,
    {
        let one = words[i].to_owned();
        proof {
            assert(texts(owned@.push(one)) =~= texts(owned@).push(one@));
            assert(strs(words@).take(i + 1) =~= strs(words@).take(i as int).push(one@));
        }
        owned.push(one);
        i = i + 1;
    }
    proof {
        assert(strs(words@).take(i as int) =~= strs(words@));
    }
    text_list(&owned)
}

fn coordination(shape: Shape) -> (r: Json)
    ensures
        r@ == coordination_doc(shape),
{
    let order: Vec<&'static str> = match shape {
        Shape::Solo => vec!["executor", "verifier"],
        Shape::Debate => vec!["drafter", "critic", "executor", "inspector"],
        Shape::Tiered => vec!["drafter", "executor", "inspector", "verifier"],
    };
    proof {
        assert(strs(order@) =~= role_order(shape));
    }
    let mut f = Fields::new();
    f.put("handoff", text("brief context + explicit acceptance criteria"));
    f.put("order", words_doc(order));
    f.put("parallelizable", truth(matches!(shape, Shape::Debate)));
    proof {
        assert(f@ =~= coordination_doc(shape)->Obj_0);
    }
    f.object()
}

/// What a task holds, as far as its plan asks.
struct PlanSignals {
    algorithmic: bool,
    volume: bool,
    ambiguity: bool,
    correctness: bool,
    breadth: bool,
    hard: bool,
}

spec fn plan_signals_of(p: PlanSignals, task: Seq<char>, s: Shape) -> bool {
    &&& p.algorithmic == touches(task, algorithmic_words_spec())
    &&& p.volume == touches(task, volume_words_spec())
    &&& p.ambiguity == touches(task, ambiguity_words_spec())
    &&& p.correctness == touches(task, correctness_words_spec())
    &&& p.breadth == touches(task, breadth_words_spec())
    &&& p.hard == is_hard(task, s)
}

fn plan_signals(task: &str, shape: Shape) -> (r: PlanSignals)
    ensures
        plan_signals_of(r, task@, shape),
{
    let f = extract_features(task);
    PlanSignals {
        algorithmic: f.algorithmic >= 1,
        volume: f.volume >= 1,
        ambiguity: f.ambiguity >= 1,
        correctness: f.correctness >= 1,
        breadth: f.breadth >= 1,
        hard: matches!(shape, Shape::Solo) || f.correctness >= 1,
    }
}

fn escalation(p: &PlanSignals, Ghost(task): Ghost<Seq<char>>, Ghost(s): Ghost<Shape>) -> (r: Json)
    requires
        plan_signals_of(*p, task, s),
    ensures
        r@ == escalate_doc(task, s),
{
    let mut causes: Vec<&'static str> = vec!["failed_verification"];
    if !p.hard {
        causes.push("low_confidence");
    }
    if p.correctness {
        causes.push("security_sensitive");
    }
    proof {
        assert(strs(causes@) =~= escalation_causes(task, s));
    }
    let mut to = Fields::new();
    to.put("agent", text("anthropic"));
    to.put("model", text("opus"));
    proof {
        assert(to@ =~= escalate_doc(task, s)->Obj_0[1].1->Obj_0);
    }
    let mut f = Fields::new();
    f.put("if", words_doc(causes));
    f.put("to", to.object());
    proof {
        assert(f@ =~= escalate_doc(task, s)->Obj_0);
    }
    f.object()
}

fn risks(p: &PlanSignals, Ghost(task): Ghost<Seq<char>>, Ghost(s): Ghost<Shape>) -> (r: Json)
    requires
        plan_signals_of(*p, task, s),
    ensures
        r@ == jtexts(risk_list(task)),
{
    let mut out: Vec<&'static str> = Vec::new();
    if p.ambiguity {
        out.push("unclear requirements");
    }
    if p.breadth {
        out.push("large blast radius");
    }
    if p.correctness {
        out.push("correctness-critical");
    }
    proof {
        assert(strs(out@) =~= risk_list(task));
    }
    words_doc(out)
}

fn verification(shape: Shape) -> (r: Json)
    ensures
        r@ == verify_doc(shape),
{
    let mut f = Fields::new();
    f.put("agent", text("codex"));
    f.put(
        "method",
        text(
            match shape {
                Shape::Debate => "review",
                _ => "tests",
            },
        ),
    );
    f.put("required", truth(true));
    proof {
        assert(f@ =~= verify_doc(shape)->Obj_0);
    }
    f.object()
}

/// Why the plan for a task is as it is.
fn plan_rationale(
    p: &PlanSignals,
    shape: Shape,
    Ghost(task): Ghost<Seq<char>>,
) -> (r: String)
    requires
        plan_signals_of(*p, task, shape),
    ensures
        r@ == plan_reason(task, shape),
{
    let driver: &str = if p.algorithmic {
        "algorithmic difficulty"
    } else if p.volume {
        "mechanical volume"
    } else if p.ambiguity {
        "architectural ambiguity"
    } else if p.correctness {
        "correctness risk"
    } else {
        "the task shape"
    };
    let mut out = driver.to_owned();
    out.append(
        match shape {
            Shape::Solo => ": one strong model implements, an inspector verifies",
            Shape::Debate => ": two planners debate the approach before a strong model executes",
            Shape::Tiered => ": strong models plan once, a cheap model executes the bulk, an inspector checks",
        },
    );
    out
}

/// The plan for a task of a shape.
pub fn orchestration_plan(task: &str, shape: Shape) -> (r: Json)
    ensures
        r@ == plan_doc(task@, shape),
{
    let p = plan_signals(task, shape);
    let bits: u64 = match shape {
        Shape::Solo => 0x3feb333333333333,
        Shape::Debate => 0x3fe3333333333333,
        Shape::Tiered => 0x3fc999999999999a,
    };
    let mut f = Fields::new();
    f.put("coordination", coordination(shape));
    f.put("difficulty", Json::Num(Number::Real(bits)));
    f.put("escalate", escalation(&p, Ghost(task@), Ghost(shape)));
    f.put("rationale", text(plan_rationale(&p, shape, Ghost(task@)).as_str()));
    f.put("risks", risks(&p, Ghost(task@), Ghost(shape)));
    f.put("roster", roster(shape, p.hard));
    f.put("schema_version", num(1));
    f.put("shape", text(shape.as_str()));
    f.put("verify", verification(shape));
    proof {
        assert(f@ =~= plan_doc(task@, shape)->Obj_0);
    }
    f.object()
}

/// The plan for a task of a shape as text.
pub fn orchestration_plan_text(task: &str, shape: Shape) -> (r: String)
    ensures
        r@ == plan_text(task@, shape),
{
    let p = plan_signals(task, shape);
    proof {
        lemma_plan_parts_are_whole(task@, shape);
    }
    let mut out = "{\"coordination\":".to_owned();
    out.append(compact(&coordination(shape)).as_str());
    out.append(",\"difficulty\":");
    out.append(
        match shape {
            Shape::Solo => "0.85",
            Shape::Debate => "0.6",
            Shape::Tiered => "0.2",
        },
    );
    out.append(",\"escalate\":");
    out.append(compact(&escalation(&p, Ghost(task@), Ghost(shape))).as_str());
    out.append(",\"rationale\":");
    out.append(compact(&text(plan_rationale(&p, shape, Ghost(task@)).as_str())).as_str());
    out.append(",\"risks\":");
    out.append(compact(&risks(&p, Ghost(task@), Ghost(shape))).as_str());
    out.append(",\"roster\":");
    out.append(compact(&roster(shape, p.hard)).as_str());
    out.append(",\"schema_version\":1,\"shape\":");
    out.append(compact(&text(shape.as_str())).as_str());
    out.append(",\"verify\":");
    out.append(compact(&verification(shape)).as_str());
    out.append("}");
    out
}

proof fn lemma_plan_parts_are_whole(task: Seq<char>, s: Shape)
    ensures
        whole(coordination_doc(s)),
        whole(escalate_doc(task, s)),
        whole(jstr(plan_reason(task, s))),
        whole(jtexts(risk_list(task))),
        whole(roster_doc(roster_rows(s, is_hard(task, s)))),
        whole(jstr(shape_word(s))),
        whole(verify_doc(s)),
{
    reveal_with_fuel(whole, 4);
    assert forall|row: SeatRow| whole(#[trigger] seat_doc(row)) by {}
}

/// The line of an example with its plan.
#[verifier::opaque]
pub open spec fn plan_line_text(e: (Seq<char>, Shape)) -> Seq<char> {
    compact_text(conversation_doc(CONDUCTOR_PLAN_SYSTEM@, e.0, plan_text(e.0, e.1)))
}

/// An example with its plan as one line.
pub fn plan_line(task: &str, shape: Shape) -> (r: String)
    ensures
        r@ == plan_line_text((task@, shape)),
{
    proof {
        reveal(plan_line_text);
    }
    let plan = orchestration_plan_text(task, shape);
    conversation_line(CONDUCTOR_PLAN_SYSTEM, task, plan.as_str())
}

/// A corpus with the plans, a line for each example.
pub fn to_plan_jsonl(corpus: &[(String, Shape)]) -> (r: String)
    ensures
        r@ == flat(
            Seq::new(
                corpus@.len(),
                |i: int| plan_line_text((corpus@[i].0@, corpus@[i].1)) + "\n"@,
            ),
        ),
{
    let ghost line = |i: int| plan_line_text((corpus@[i].0@, corpus@[i].1)) + "\n"@;
    let mut out = String::new();
    let mut i: usize = 0;
    proof {
        assert(flat(Seq::new(0, line)) =~= Seq::empty());
    }
    while i < corpus.len()
        invariant
            i <= corpus@.len(),
            line == (|i: int| plan_line_text((corpus@[i].0@, corpus@[i].1)) + "\n"@),
            out@ == flat(Seq::new(i as nat, line)),
        decreases corpus@.len() - i,
    {
        let one = plan_line(corpus[i].0.as_str(), corpus[i].1);
        out.append(one.as_str());
        out.append("\n");
        proof {
            lemma_flat_push(Seq::new(i as nat, line), line(i as int));
            assert(Seq::new((i + 1) as nat, line) =~= Seq::new(i as nat, line).push(line(i as int)));
            assert(out@ =~= flat(Seq::new(i as nat, line)) + line(i as int));
        }
        i = i + 1;
    }
    out
}

/// The lines of an example hold no line break of their own: a corpus has one
/// line for each example, whatever the tasks hold.
pub proof fn law_examples_are_single_lines(e: (Seq<char>, Shape))
    ensures
        one_line(chat_line_text(e)),
        one_line(plan_line_text(e)),
{
    reveal(chat_line_text);
    reveal(plan_line_text);
    law_compact_text_is_one_line(
        conversation_doc(CONDUCTOR_SYSTEM@, e.0, decision_text(e.1)),
    );
    law_compact_text_is_one_line(
        conversation_doc(CONDUCTOR_PLAN_SYSTEM@, e.0, plan_text(e.0, e.1)),
    );
}

} // verus!
