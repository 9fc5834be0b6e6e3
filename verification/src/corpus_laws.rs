//! What holds of every task of the training corpus.
use vstd::prelude::*;
use crate::coordinator::Shape;
use crate::dataset::{
    added, added_thing, bulk, bulk_action, bulk_target, filled, filled_any, filled_once_more,
    filled_twice, in_corpus, listed,
};
use crate::scan::{replaced, starts};
use crate::vocabulary::{
    added_things_spec, algorithmic_nouns_spec, boundary_tasks_spec, bulk_templates_spec,
    call_swaps_spec, contested_systems_spec, contested_technologies_spec, contested_templates_spec,
    debate_aspects_spec, debate_systems_spec, debate_templates_spec, edit_sites_spec,
    focused_tasks_spec, infrastructure_nouns_spec, mechanical_templates_spec, solo_subjects_spec,
    solo_templates_spec, tiered_actions_spec, tiered_scopes_spec, tiered_targets_spec,
};

verus! {

// ---- Braces ------------------------------------------------------------------

/// Whether the braces of a text from a place on are those of keys, one letter
/// of the given ones in each pair.
spec fn tidy(s: Seq<char>, i: int, keys: Set<char>) -> bool
    decreases s.len() - i,
{
    if i >= s.len() {
        true
    } else if s[i] == '{' {
        &&& i + 2 < s.len()
        &&& keys.contains(s[i + 1])
        &&& s[i + 2] == '}'
        &&& tidy(s, i + 3, keys)
    } else {
        s[i] != '}' && tidy(s, i + 1, keys)
    }
}

/// Whether all the braces of a text are those of the given keys.
spec fn fits(s: Seq<char>, keys: Set<char>) -> bool {
    tidy(s, 0, keys)
}

/// What stands in front of a text does not matter behind it.
proof fn lemma_shifted(x: Seq<char>, y: Seq<char>, keys: Set<char>, j: int)
    requires
        0 <= j,
    ensures
        tidy(x + y, x.len() + j, keys) == tidy(y, j, keys),
    decreases y.len() - j,
{
    if j < y.len() {
        lemma_shifted(x, y, keys, j + 1);
        if j + 3 <= y.len() {
            lemma_shifted(x, y, keys, j + 3);
        }
    }
}

proof fn lemma_joined_from(x: Seq<char>, y: Seq<char>, keys: Set<char>, i: int)
    requires
        0 <= i <= x.len(),
        tidy(x, i, Set::empty()),
        fits(y, keys),
    ensures
        tidy(x + y, i, keys),
    decreases x.len() - i,
{
    if i < x.len() {
        lemma_joined_from(x, y, keys, i + 1);
    } else {
        lemma_shifted(x, y, keys, 0);
    }
}

/// A text without braces changes nothing in front of another.
proof fn lemma_joined(x: Seq<char>, y: Seq<char>, keys: Set<char>)
    requires
        fits(x, Set::empty()),
        fits(y, keys),
    ensures
        fits(x + y, keys),
{
    lemma_joined_from(x, y, keys, 0);
}

proof fn lemma_without_keys(s: Seq<char>, i: int, j: int)
    requires
        0 <= i <= j < s.len(),
        tidy(s, i, Set::empty()),
    ensures
        s[j] != '{' && s[j] != '}',
    decreases j - i,
{
    if i < j {
        lemma_without_keys(s, i + 1, j);
    }
}

proof fn lemma_replaced_from(s: Seq<char>, i: int, keys: Set<char>, k: char, key: Seq<char>, w: Seq<char>)
    requires
        0 <= i <= s.len(),
        tidy(s, i, keys),
        !keys.contains('{'),
        key == seq!['{', k, '}'],
        fits(w, Set::empty()),
    ensures
        fits(replaced(s.skip(i), key, w), keys.remove(k)),
    decreases s.len() - i,
{
    let t = s.skip(i);
    let left = keys.remove(k);
    if i < s.len() {
        if s[i] == '{' {
            lemma_replaced_from(s, i + 3, keys, k, key, w);
            let rest = replaced(s.skip(i + 3), key, w);
            assert(t.skip(3) =~= s.skip(i + 3));
            if s[i + 1] == k {
                assert(starts(t, key)) by {
                    assert(t.subrange(0, 3) =~= key);
                }
                lemma_joined(w, rest, left);
            } else {
                let c = s[i + 1];
                assert(!starts(t, key)) by {
                    if starts(t, key) {
                        assert(t.subrange(0, 3)[1] == key[1]);
                    }
                }
                let t1 = t.skip(1);
                let t2 = t1.skip(1);
                assert(t1[0] == c && t2[0] == '}');
                assert(!starts(t1, key)) by {
                    if starts(t1, key) {
                        assert(t1.subrange(0, 3)[0] == key[0]);
                    }
                }
                assert(!starts(t2, key)) by {
                    if starts(t2, key) {
                        assert(t2.subrange(0, 3)[0] == key[0]);
                    }
                }
                assert(t2.skip(1) =~= s.skip(i + 3));
                let r = replaced(t, key, w);
                assert(r == seq![t[0]] + replaced(t1, key, w));
                assert(replaced(t1, key, w) == seq![t1[0]] + replaced(t2, key, w));
                assert(replaced(t2, key, w) == seq![t2[0]] + rest);
                assert(r =~= seq!['{', c, '}'] + rest);
                lemma_shifted(seq!['{', c, '}'], rest, left, 0);
            }
        } else {
            lemma_replaced_from(s, i + 1, keys, k, key, w);
            let rest = replaced(s.skip(i + 1), key, w);
            assert(t.skip(1) =~= s.skip(i + 1));
            assert(!starts(t, key)) by {
                if starts(t, key) {
                    assert(t.subrange(0, 3)[0] == key[0]);
                }
            }
            lemma_shifted(seq![s[i]], rest, left, 0);
        }
    }
}

/// To fill in one of the keys leaves the others.
proof fn lemma_replaced(s: Seq<char>, keys: Set<char>, k: char, key: Seq<char>, w: Seq<char>)
    requires
        fits(s, keys),
        !keys.contains('{'),
        key == seq!['{', k, '}'],
        fits(w, Set::empty()),
    ensures
        fits(replaced(s, key, w), keys.remove(k)),
{
    assert(s.skip(0) =~= s);
    lemma_replaced_from(s, 0, keys, k, key, w);
}

// ---- Openings ------------------------------------------------------------------

/// Whether a text begins with three characters.
spec fn heads(t: Seq<char>, a: char, b: char, c: char) -> bool {
    t[0] == a && t[1] == b && t[2] == c
}

/// The shape that the opening of a task of the corpus tells: its first three
/// characters, and two more where something is added.
spec fn told_by(t: Seq<char>) -> Shape {
    if heads(t, 'd', 'e', 'c') || heads(t, 'd', 'e', 's') || heads(t, 'p', 'r', 'o') || heads(
        t,
        'e',
        'v',
        'a',
    ) || heads(t, 'f', 'i', 'g') || heads(t, 'w', 'e', 'i') || heads(t, 's', 'h', 'o') || heads(
        t,
        'c',
        'h',
        'o',
    ) || heads(t, 'b', 'a', 'l') || heads(t, 't', 'u', 'n') {
        Shape::Debate
    } else if heads(t, 'i', 'm', 'p') || heads(t, 'w', 'r', 'i') || heads(t, 'b', 'u', 'i')
        || heads(t, 'c', 'o', 'd') || heads(t, 't', 'w', 'o') || heads(t, 'a', ' ', 'r') || heads(
        t,
        'u',
        'n',
        'd',
    ) || heads(t, 't', 'h', 'e') || heads(t, 'f', 'i', 'x') || heads(t, 'm', 'a', 'k') || heads(
        t,
        'p',
        'a',
        'r',
    ) || (heads(t, 'a', 'd', 'd') && t[6] == 'c' && t[7] == 'l') {
        Shape::Solo
    } else {
        Shape::Tiered
    }
}

/// Whether the first three characters of a template, which no key touches, tell
/// a shape.
spec fn opens(t: Seq<char>, shape: Shape) -> bool {
    &&& 3 <= t.len()
    &&& t[0] != '{' && t[1] != '{' && t[2] != '{'
    &&& !heads(t, 'a', 'd', 'd')
    &&& told_by(t) == shape
}

/// A template keeps its opening when a key is filled in.
proof fn lemma_opening_stays(t: Seq<char>, shape: Shape, key: Seq<char>, w: Seq<char>)
    requires
        opens(t, shape),
        key.len() == 3,
        key[0] == '{',
    ensures
        opens(replaced(t, key, w), shape),
{
    let t1 = t.skip(1);
    let t2 = t1.skip(1);
    let t3 = t2.skip(1);
    assert(!starts(t, key)) by {
        if starts(t, key) {
            assert(t.subrange(0, 3)[0] == key[0]);
        }
    }
    assert(!starts(t1, key)) by {
        if starts(t1, key) {
            assert(t1.subrange(0, 3)[0] == key[0]);
        }
    }
    assert(!starts(t2, key)) by {
        if starts(t2, key) {
            assert(t2.subrange(0, 3)[0] == key[0]);
        }
    }
    let r = replaced(t, key, w);
    let r1 = replaced(t1, key, w);
    let r2 = replaced(t2, key, w);
    assert(r == seq![t[0]] + r1);
    assert(r1 == seq![t1[0]] + r2);
    assert(r2 == seq![t2[0]] + replaced(t3, key, w));
}

/// Whether a task holds no braces and tells its shape.
spec fn plain(p: (Seq<char>, Shape)) -> bool {
    fits(p.0, Set::empty()) && told_by(p.0) == p.1
}

// ---- The vocabulary --------------------------------------------------------------

/// The subjects hold no braces.
#[verifier::spinoff_prover]
proof fn lemma_solo_subjects()
    ensures
        forall|i: int|
            0 <= i < solo_subjects_spec().len() ==> fits(
                #[trigger] solo_subjects_spec()[i],
                Set::empty(),
            ),
{
    assert(fits("quicksort with a median-of-three pivot"@, Set::empty())) by {
        reveal_strlit("quicksort with a median-of-three pivot");
        reveal_with_fuel(tidy, 41);
    }
    assert(fits("an in-place mergesort"@, Set::empty())) by {
        reveal_strlit("an in-place mergesort");
        reveal_with_fuel(tidy, 24);
    }
    assert(fits("Dijkstra's shortest path with a binary heap"@, Set::empty())) by {
        reveal_strlit("Dijkstra's shortest path with a binary heap");
        reveal_with_fuel(tidy, 46);
    }
    assert(fits("an A* pathfinder with a consistent heuristic"@, Set::empty())) by {
        reveal_strlit("an A* pathfinder with a consistent heuristic");
        reveal_with_fuel(tidy, 47);
    }
    assert(fits("a red-black tree with deletion"@, Set::empty())) by {
        reveal_strlit("a red-black tree with deletion");
        reveal_with_fuel(tidy, 33);
    }
    assert(fits("an AVL tree with rebalancing"@, Set::empty())) by {
        reveal_strlit("an AVL tree with rebalancing");
        reveal_with_fuel(tidy, 31);
    }
    assert(fits("a B-tree with split and merge"@, Set::empty())) by {
        reveal_strlit("a B-tree with split and merge");
        reveal_with_fuel(tidy, 32);
    }
    assert(fits("a trie with prefix search and deletion"@, Set::empty())) by {
        reveal_strlit("a trie with prefix search and deletion");
        reveal_with_fuel(tidy, 41);
    }
    assert(fits("an open-addressing hash map"@, Set::empty())) by {
        reveal_strlit("an open-addressing hash map");
        reveal_with_fuel(tidy, 30);
    }
    assert(fits("a counting bloom filter"@, Set::empty())) by {
        reveal_strlit("a counting bloom filter");
        reveal_with_fuel(tidy, 26);
    }
    assert(fits("a min-heap with decrease-key"@, Set::empty())) by {
        reveal_strlit("a min-heap with decrease-key");
        reveal_with_fuel(tidy, 31);
    }
    assert(fits("an O(1) LRU cache"@, Set::empty())) by {
        reveal_strlit("an O(1) LRU cache");
        reveal_with_fuel(tidy, 20);
    }
    assert(fits("a backtracking regex engine"@, Set::empty())) by {
        reveal_strlit("a backtracking regex engine");
        reveal_with_fuel(tidy, 30);
    }
    assert(fits("a streaming JSON parser"@, Set::empty())) by {
        reveal_strlit("a streaming JSON parser");
        reveal_with_fuel(tidy, 26);
    }
    assert(fits("a recursive-descent expression parser"@, Set::empty())) by {
        reveal_strlit("a recursive-descent expression parser");
        reveal_with_fuel(tidy, 40);
    }
    assert(fits("a cycle-detecting topological sort"@, Set::empty())) by {
        reveal_strlit("a cycle-detecting topological sort");
        reveal_with_fuel(tidy, 37);
    }
    assert(fits("the edit-distance dynamic program"@, Set::empty())) by {
        reveal_strlit("the edit-distance dynamic program");
        reveal_with_fuel(tidy, 36);
    }
    assert(fits("a 0/1 knapsack solver with reconstruction"@, Set::empty())) by {
        reveal_strlit("a 0/1 knapsack solver with reconstruction");
        reveal_with_fuel(tidy, 44);
    }
    assert(fits("run-length encoding and decoding"@, Set::empty())) by {
        reveal_strlit("run-length encoding and decoding");
        reveal_with_fuel(tidy, 35);
    }
    assert(fits("a suffix automaton for substring queries"@, Set::empty())) by {
        reveal_strlit("a suffix automaton for substring queries");
        reveal_with_fuel(tidy, 43);
    }
}

/// The targets hold no braces.
#[verifier::spinoff_prover]
proof fn lemma_tiered_targets()
    ensures
        forall|i: int|
            0 <= i < tiered_targets_spec().len() ==> fits(
                #[trigger] tiered_targets_spec()[i],
                Set::empty(),
            ),
{
    assert(fits("the API endpoints"@, Set::empty())) by {
        reveal_strlit("the API endpoints");
        reveal_with_fuel(tidy, 20);
    }
    assert(fits("the React components"@, Set::empty())) by {
        reveal_strlit("the React components");
        reveal_with_fuel(tidy, 23);
    }
    assert(fits("the test files"@, Set::empty())) by {
        reveal_strlit("the test files");
        reveal_with_fuel(tidy, 17);
    }
    assert(fits("the config files"@, Set::empty())) by {
        reveal_strlit("the config files");
        reveal_with_fuel(tidy, 19);
    }
    assert(fits("the model classes"@, Set::empty())) by {
        reveal_strlit("the model classes");
        reveal_with_fuel(tidy, 20);
    }
    assert(fits("the route handlers"@, Set::empty())) by {
        reveal_strlit("the route handlers");
        reveal_with_fuel(tidy, 21);
    }
    assert(fits("the serializers"@, Set::empty())) by {
        reveal_strlit("the serializers");
        reveal_with_fuel(tidy, 18);
    }
    assert(fits("the import statements"@, Set::empty())) by {
        reveal_strlit("the import statements");
        reveal_with_fuel(tidy, 24);
    }
}

/// The scopes hold no braces.
#[verifier::spinoff_prover]
proof fn lemma_tiered_scopes()
    ensures
        forall|i: int|
            0 <= i < tiered_scopes_spec().len() ==> fits(
                #[trigger] tiered_scopes_spec()[i],
                Set::empty(),
            ),
{
    assert(fits("across the codebase"@, Set::empty())) by {
        reveal_strlit("across the codebase");
        reveal_with_fuel(tidy, 22);
    }
    assert(fits("throughout the service"@, Set::empty())) by {
        reveal_strlit("throughout the service");
        reveal_with_fuel(tidy, 25);
    }
    assert(fits("in every module"@, Set::empty())) by {
        reveal_strlit("in every module");
        reveal_with_fuel(tidy, 18);
    }
    assert(fits("project-wide"@, Set::empty())) by {
        reveal_strlit("project-wide");
        reveal_with_fuel(tidy, 15);
    }
    assert(fits("across all packages"@, Set::empty())) by {
        reveal_strlit("across all packages");
        reveal_with_fuel(tidy, 22);
    }
}

/// The aspects hold no braces.
#[verifier::spinoff_prover]
proof fn lemma_debate_aspects()
    ensures
        forall|i: int|
            0 <= i < debate_aspects_spec().len() ==> fits(
                #[trigger] debate_aspects_spec()[i],
                Set::empty(),
            ),
{
    assert(fits("the caching strategy"@, Set::empty())) by {
        reveal_strlit("the caching strategy");
        reveal_with_fuel(tidy, 23);
    }
    assert(fits("the auth architecture"@, Set::empty())) by {
        reveal_strlit("the auth architecture");
        reveal_with_fuel(tidy, 24);
    }
    assert(fits("the data model"@, Set::empty())) by {
        reveal_strlit("the data model");
        reveal_with_fuel(tidy, 17);
    }
    assert(fits("the offline-sync approach"@, Set::empty())) by {
        reveal_strlit("the offline-sync approach");
        reveal_with_fuel(tidy, 28);
    }
    assert(fits("the error-handling strategy"@, Set::empty())) by {
        reveal_strlit("the error-handling strategy");
        reveal_with_fuel(tidy, 30);
    }
    assert(fits("the rate-limiting approach"@, Set::empty())) by {
        reveal_strlit("the rate-limiting approach");
        reveal_with_fuel(tidy, 29);
    }
    assert(fits("the sharding scheme"@, Set::empty())) by {
        reveal_strlit("the sharding scheme");
        reveal_with_fuel(tidy, 22);
    }
    assert(fits("the public API design"@, Set::empty())) by {
        reveal_strlit("the public API design");
        reveal_with_fuel(tidy, 24);
    }
}

/// The systems hold no braces.
#[verifier::spinoff_prover]
proof fn lemma_debate_systems()
    ensures
        forall|i: int|
            0 <= i < debate_systems_spec().len() ==> fits(
                #[trigger] debate_systems_spec()[i],
                Set::empty(),
            ),
{
    assert(fits("the payments service"@, Set::empty())) by {
        reveal_strlit("the payments service");
        reveal_with_fuel(tidy, 23);
    }
    assert(fits("the notification system"@, Set::empty())) by {
        reveal_strlit("the notification system");
        reveal_with_fuel(tidy, 26);
    }
    assert(fits("the multi-tenant platform"@, Set::empty())) by {
        reveal_strlit("the multi-tenant platform");
        reveal_with_fuel(tidy, 28);
    }
    assert(fits("the offline-first app"@, Set::empty())) by {
        reveal_strlit("the offline-first app");
        reveal_with_fuel(tidy, 24);
    }
    assert(fits("the analytics pipeline"@, Set::empty())) by {
        reveal_strlit("the analytics pipeline");
        reveal_with_fuel(tidy, 25);
    }
    assert(fits("the plugin system"@, Set::empty())) by {
        reveal_strlit("the plugin system");
        reveal_with_fuel(tidy, 20);
    }
}

/// The nouns hold no braces.
#[verifier::spinoff_prover]
proof fn lemma_algorithmic_nouns()
    ensures
        forall|i: int|
            0 <= i < algorithmic_nouns_spec().len() ==> fits(
                #[trigger] algorithmic_nouns_spec()[i],
                Set::empty(),
            ),
{
    assert(fits("quicksort"@, Set::empty())) by {
        reveal_strlit("quicksort");
        reveal_with_fuel(tidy, 12);
    }
    assert(fits("heapsort"@, Set::empty())) by {
        reveal_strlit("heapsort");
        reveal_with_fuel(tidy, 11);
    }
    assert(fits("binary-search"@, Set::empty())) by {
        reveal_strlit("binary-search");
        reveal_with_fuel(tidy, 16);
    }
    assert(fits("hash"@, Set::empty())) by {
        reveal_strlit("hash");
        reveal_with_fuel(tidy, 7);
    }
    assert(fits("parser"@, Set::empty())) by {
        reveal_strlit("parser");
        reveal_with_fuel(tidy, 9);
    }
    assert(fits("tokenizer"@, Set::empty())) by {
        reveal_strlit("tokenizer");
        reveal_with_fuel(tidy, 12);
    }
    assert(fits("graph-traversal"@, Set::empty())) by {
        reveal_strlit("graph-traversal");
        reveal_with_fuel(tidy, 18);
    }
    assert(fits("LRU cache"@, Set::empty())) by {
        reveal_strlit("LRU cache");
        reveal_with_fuel(tidy, 12);
    }
    assert(fits("b-tree"@, Set::empty())) by {
        reveal_strlit("b-tree");
        reveal_with_fuel(tidy, 9);
    }
    assert(fits("regex"@, Set::empty())) by {
        reveal_strlit("regex");
        reveal_with_fuel(tidy, 8);
    }
}

/// The sites hold no braces.
#[verifier::spinoff_prover]
proof fn lemma_edit_sites()
    ensures
        forall|i: int|
            0 <= i < edit_sites_spec().len() ==> fits(
                #[trigger] edit_sites_spec()[i],
                Set::empty(),
            ),
{
    assert(fits("API endpoint"@, Set::empty())) by {
        reveal_strlit("API endpoint");
        reveal_with_fuel(tidy, 15);
    }
    assert(fits("request handler"@, Set::empty())) by {
        reveal_strlit("request handler");
        reveal_with_fuel(tidy, 18);
    }
    assert(fits("controller"@, Set::empty())) by {
        reveal_strlit("controller");
        reveal_with_fuel(tidy, 13);
    }
    assert(fits("route"@, Set::empty())) by {
        reveal_strlit("route");
        reveal_with_fuel(tidy, 8);
    }
    assert(fits("serializer"@, Set::empty())) by {
        reveal_strlit("serializer");
        reveal_with_fuel(tidy, 13);
    }
    assert(fits("service"@, Set::empty())) by {
        reveal_strlit("service");
        reveal_with_fuel(tidy, 10);
    }
}

/// The contested systems hold no braces.
#[verifier::spinoff_prover]
proof fn lemma_contested_systems()
    ensures
        forall|i: int|
            0 <= i < contested_systems_spec().len() ==> fits(
                #[trigger] contested_systems_spec()[i],
                Set::empty(),
            ),
{
    assert(fits("services"@, Set::empty())) by {
        reveal_strlit("services");
        reveal_with_fuel(tidy, 11);
    }
    assert(fits("cron jobs"@, Set::empty())) by {
        reveal_strlit("cron jobs");
        reveal_with_fuel(tidy, 12);
    }
    assert(fits("controllers"@, Set::empty())) by {
        reveal_strlit("controllers");
        reveal_with_fuel(tidy, 14);
    }
    assert(fits("data models"@, Set::empty())) by {
        reveal_strlit("data models");
        reveal_with_fuel(tidy, 14);
    }
    assert(fits("endpoints"@, Set::empty())) by {
        reveal_strlit("endpoints");
        reveal_with_fuel(tidy, 12);
    }
}

/// The technologies hold no braces.
#[verifier::spinoff_prover]
proof fn lemma_contested_technologies()
    ensures
        forall|i: int|
            0 <= i < contested_technologies_spec().len() ==> fits(
                #[trigger] contested_technologies_spec()[i],
                Set::empty(),
            ),
{
    assert(fits("the message queue"@, Set::empty())) by {
        reveal_strlit("the message queue");
        reveal_with_fuel(tidy, 20);
    }
    assert(fits("gRPC"@, Set::empty())) by {
        reveal_strlit("gRPC");
        reveal_with_fuel(tidy, 7);
    }
    assert(fits("the new framework"@, Set::empty())) by {
        reveal_strlit("the new framework");
        reveal_with_fuel(tidy, 20);
    }
    assert(fits("an event-sourced model"@, Set::empty())) by {
        reveal_strlit("an event-sourced model");
        reveal_with_fuel(tidy, 25);
    }
}

/// The nouns hold no braces.
#[verifier::spinoff_prover]
proof fn lemma_infrastructure_nouns()
    ensures
        forall|i: int|
            0 <= i < infrastructure_nouns_spec().len() ==> fits(
                #[trigger] infrastructure_nouns_spec()[i],
                Set::empty(),
            ),
{
    assert(fits("api endpoints"@, Set::empty())) by {
        reveal_strlit("api endpoints");
        reveal_with_fuel(tidy, 16);
    }
    assert(fits("route handlers"@, Set::empty())) by {
        reveal_strlit("route handlers");
        reveal_with_fuel(tidy, 17);
    }
    assert(fits("controllers"@, Set::empty())) by {
        reveal_strlit("controllers");
        reveal_with_fuel(tidy, 14);
    }
    assert(fits("serializers"@, Set::empty())) by {
        reveal_strlit("serializers");
        reveal_with_fuel(tidy, 14);
    }
    assert(fits("data models"@, Set::empty())) by {
        reveal_strlit("data models");
        reveal_with_fuel(tidy, 14);
    }
    assert(fits("config files"@, Set::empty())) by {
        reveal_strlit("config files");
        reveal_with_fuel(tidy, 15);
    }
    assert(fits("service modules"@, Set::empty())) by {
        reveal_strlit("service modules");
        reveal_with_fuel(tidy, 18);
    }
    assert(fits("database queries"@, Set::empty())) by {
        reveal_strlit("database queries");
        reveal_with_fuel(tidy, 19);
    }
    assert(fits("view templates"@, Set::empty())) by {
        reveal_strlit("view templates");
        reveal_with_fuel(tidy, 17);
    }
    assert(fits("graphql resolvers"@, Set::empty())) by {
        reveal_strlit("graphql resolvers");
        reveal_with_fuel(tidy, 20);
    }
}

/// The actions hold no braces and open as bulk work does.
#[verifier::spinoff_prover]
proof fn lemma_tiered_actions()
    ensures
        forall|i: int|
            0 <= i < tiered_actions_spec().len() ==> fits(
                #[trigger] tiered_actions_spec()[i],
                Set::empty(),
            ) && 8 <= tiered_actions_spec()[i].len() && told_by(tiered_actions_spec()[i]) is Tiered,
{
    assert(fits("migrate all"@, Set::empty()) && 8 <= "migrate all"@.len() && told_by("migrate all"@) is Tiered) by {
        reveal_strlit("migrate all");
        reveal_with_fuel(tidy, 14);
    }
    assert(fits("rename every"@, Set::empty()) && 8 <= "rename every"@.len() && told_by("rename every"@) is Tiered) by {
        reveal_strlit("rename every");
        reveal_with_fuel(tidy, 15);
    }
    assert(fits("convert all"@, Set::empty()) && 8 <= "convert all"@.len() && told_by("convert all"@) is Tiered) by {
        reveal_strlit("convert all");
        reveal_with_fuel(tidy, 14);
    }
    assert(fits("update all"@, Set::empty()) && 8 <= "update all"@.len() && told_by("update all"@) is Tiered) by {
        reveal_strlit("update all");
        reveal_with_fuel(tidy, 13);
    }
    assert(fits("add tests for all"@, Set::empty()) && 8 <= "add tests for all"@.len() && told_by("add tests for all"@) is Tiered) by {
        reveal_strlit("add tests for all");
        reveal_with_fuel(tidy, 20);
    }
    assert(fits("reformat every"@, Set::empty()) && 8 <= "reformat every"@.len() && told_by("reformat every"@) is Tiered) by {
        reveal_strlit("reformat every");
        reveal_with_fuel(tidy, 17);
    }
    assert(fits("regenerate all"@, Set::empty()) && 8 <= "regenerate all"@.len() && told_by("regenerate all"@) is Tiered) by {
        reveal_strlit("regenerate all");
        reveal_with_fuel(tidy, 17);
    }
}

/// The things hold no braces, and adding one is bulk work.
#[verifier::spinoff_prover]
proof fn lemma_added_things()
    ensures
        forall|i: int|
            0 <= i < added_things_spec().len() ==> fits(
                #[trigger] added_things_spec()[i],
                Set::empty(),
            ) && 4 <= added_things_spec()[i].len() && !(added_things_spec()[i][2] == 'c' && added_things_spec()[i][3] == 'l'),
{
    assert(fits("a traceId field"@, Set::empty()) && 4 <= "a traceId field"@.len() && !("a traceId field"@[2] == 'c' && "a traceId field"@[3] == 'l')) by {
        reveal_strlit("a traceId field");
        reveal_with_fuel(tidy, 18);
    }
    assert(fits("structured logging"@, Set::empty()) && 4 <= "structured logging"@.len() && !("structured logging"@[2] == 'c' && "structured logging"@[3] == 'l')) by {
        reveal_strlit("structured logging");
        reveal_with_fuel(tidy, 21);
    }
    assert(fits("the new auth header"@, Set::empty()) && 4 <= "the new auth header"@.len() && !("the new auth header"@[2] == 'c' && "the new auth header"@[3] == 'l')) by {
        reveal_strlit("the new auth header");
        reveal_with_fuel(tidy, 22);
    }
    assert(fits("a correlation id"@, Set::empty()) && 4 <= "a correlation id"@.len() && !("a correlation id"@[2] == 'c' && "a correlation id"@[3] == 'l')) by {
        reveal_strlit("a correlation id");
        reveal_with_fuel(tidy, 19);
    }
}

/// The templates hold their own keys alone and tell their shape.
#[verifier::spinoff_prover]
proof fn lemma_solo_templates()
    ensures
        forall|i: int|
            0 <= i < solo_templates_spec().len() ==> fits(
                #[trigger] solo_templates_spec()[i],
                set!['x'],
            ) && opens(solo_templates_spec()[i], Shape::Solo),
{
    assert(fits("implement {x} with full correctness"@, set!['x']) && opens("implement {x} with full correctness"@, Shape::Solo)) by {
        reveal_strlit("implement {x} with full correctness");
        reveal_with_fuel(tidy, 38);
    }
    assert(fits("write {x} from scratch"@, set!['x']) && opens("write {x} from scratch"@, Shape::Solo)) by {
        reveal_strlit("write {x} from scratch");
        reveal_with_fuel(tidy, 25);
    }
    assert(fits("build {x} and handle the edge cases"@, set!['x']) && opens("build {x} and handle the edge cases"@, Shape::Solo)) by {
        reveal_strlit("build {x} and handle the edge cases");
        reveal_with_fuel(tidy, 38);
    }
    assert(fits("implement {x} and verify it against an oracle"@, set!['x']) && opens("implement {x} and verify it against an oracle"@, Shape::Solo)) by {
        reveal_strlit("implement {x} and verify it against an oracle");
        reveal_with_fuel(tidy, 48);
    }
    assert(fits("code {x} with optimal time complexity"@, set!['x']) && opens("code {x} with optimal time complexity"@, Shape::Solo)) by {
        reveal_strlit("code {x} with optimal time complexity");
        reveal_with_fuel(tidy, 40);
    }
}

/// The templates hold their own keys alone and tell their shape.
#[verifier::spinoff_prover]
proof fn lemma_debate_templates()
    ensures
        forall|i: int|
            0 <= i < debate_templates_spec().len() ==> fits(
                #[trigger] debate_templates_spec()[i],
                set!['a', 's'],
            ) && opens(debate_templates_spec()[i], Shape::Debate),
{
    assert(fits("decide {a} for {s}"@, set!['a', 's']) && opens("decide {a} for {s}"@, Shape::Debate)) by {
        reveal_strlit("decide {a} for {s}");
        reveal_with_fuel(tidy, 21);
    }
    assert(fits("design {a} for {s}"@, set!['a', 's']) && opens("design {a} for {s}"@, Shape::Debate)) by {
        reveal_strlit("design {a} for {s}");
        reveal_with_fuel(tidy, 21);
    }
    assert(fits("propose an approach to {a} in {s}"@, set!['a', 's']) && opens("propose an approach to {a} in {s}"@, Shape::Debate)) by {
        reveal_strlit("propose an approach to {a} in {s}");
        reveal_with_fuel(tidy, 36);
    }
    assert(fits("evaluate the options for {a} of {s}"@, set!['a', 's']) && opens("evaluate the options for {a} of {s}"@, Shape::Debate)) by {
        reveal_strlit("evaluate the options for {a} of {s}");
        reveal_with_fuel(tidy, 38);
    }
    assert(fits("figure out the best way to handle {a} in {s}"@, set!['a', 's']) && opens("figure out the best way to handle {a} in {s}"@, Shape::Debate)) by {
        reveal_strlit("figure out the best way to handle {a} in {s}");
        reveal_with_fuel(tidy, 47);
    }
}

/// The templates hold their own keys alone and tell their shape.
#[verifier::spinoff_prover]
proof fn lemma_mechanical_templates()
    ensures
        forall|i: int|
            0 <= i < mechanical_templates_spec().len() ==> fits(
                #[trigger] mechanical_templates_spec()[i],
                set!['n'],
            ) && opens(mechanical_templates_spec()[i], Shape::Tiered),
{
    assert(fits("rename the {n} helpers to camelCase across all files"@, set!['n']) && opens("rename the {n} helpers to camelCase across all files"@, Shape::Tiered)) by {
        reveal_strlit("rename the {n} helpers to camelCase across all files");
        reveal_with_fuel(tidy, 52);
        assert(tidy("rename the {n} helpers to camelCase across all files"@, 17, set!['n']));
    }
    assert(fits("replace every call to the {n} routine throughout the codebase"@, set!['n']) && opens("replace every call to the {n} routine throughout the codebase"@, Shape::Tiered)) by {
        reveal_strlit("replace every call to the {n} routine throughout the codebase");
        reveal_with_fuel(tidy, 52);
        assert(tidy("replace every call to the {n} routine throughout the codebase"@, 26, set!['n']));
    }
    assert(fits("convert all the {n} modules to the new API across the repo"@, set!['n']) && opens("convert all the {n} modules to the new API across the repo"@, Shape::Tiered)) by {
        reveal_strlit("convert all the {n} modules to the new API across the repo");
        reveal_with_fuel(tidy, 52);
        assert(tidy("convert all the {n} modules to the new API across the repo"@, 23, set!['n']));
    }
    assert(fits("update each handler that uses the {n} to the new signature project-wide"@, set!['n']) && opens("update each handler that uses the {n} to the new signature project-wide"@, Shape::Tiered)) by {
        reveal_strlit("update each handler that uses the {n} to the new signature project-wide");
        reveal_with_fuel(tidy, 52);
        assert(tidy("update each handler that uses the {n} to the new signature project-wide"@, 34, set!['n']));
    }
}

/// The templates hold their own keys alone and tell their shape.
#[verifier::spinoff_prover]
proof fn lemma_contested_templates()
    ensures
        forall|i: int|
            0 <= i < contested_templates_spec().len() ==> fits(
                #[trigger] contested_templates_spec()[i],
                set!['s', 't'],
            ) && opens(contested_templates_spec()[i], Shape::Debate),
{
    assert(fits("decide whether to migrate all the {s} to {t}, and lay out the rollout plan"@, set!['s', 't']) && opens("decide whether to migrate all the {s} to {t}, and lay out the rollout plan"@, Shape::Debate)) by {
        reveal_strlit("decide whether to migrate all the {s} to {t}, and lay out the rollout plan");
        reveal_with_fuel(tidy, 52);
        assert(tidy("decide whether to migrate all the {s} to {t}, and lay out the rollout plan"@, 39, set!['s', 't']));
    }
    assert(fits("weigh whether to rename the entire {s} layer, given the downstream breakage"@, set!['s', 't']) && opens("weigh whether to rename the entire {s} layer, given the downstream breakage"@, Shape::Debate)) by {
        reveal_strlit("weigh whether to rename the entire {s} layer, given the downstream breakage");
        reveal_with_fuel(tidy, 52);
        assert(tidy("weigh whether to rename the entire {s} layer, given the downstream breakage"@, 40, set!['s', 't']));
    }
    assert(fits("should we rewrite all the {s} or refactor them in place — make the call"@, set!['s', 't']) && opens("should we rewrite all the {s} or refactor them in place — make the call"@, Shape::Debate)) by {
        reveal_strlit("should we rewrite all the {s} or refactor them in place — make the call");
        reveal_with_fuel(tidy, 52);
        assert(tidy("should we rewrite all the {s} or refactor them in place — make the call"@, 36, set!['s', 't']));
    }
    assert(fits("figure out whether to convert every one of the {s} to {t} and how"@, set!['s', 't']) && opens("figure out whether to convert every one of the {s} to {t} and how"@, Shape::Debate)) by {
        reveal_strlit("figure out whether to convert every one of the {s} to {t} and how");
        reveal_with_fuel(tidy, 52);
        assert(tidy("figure out whether to convert every one of the {s} to {t} and how"@, 30, set!['s', 't']));
    }
}

/// The templates hold their own keys alone and tell their shape.
#[verifier::spinoff_prover]
proof fn lemma_bulk_templates()
    ensures
        forall|i: int|
            0 <= i < bulk_templates_spec().len() ==> fits(
                #[trigger] bulk_templates_spec()[i],
                set!['n'],
            ) && opens(bulk_templates_spec()[i], Shape::Tiered),
{
    assert(fits("rename the legacy {n} to the new naming convention across the project"@, set!['n']) && opens("rename the legacy {n} to the new naming convention across the project"@, Shape::Tiered)) by {
        reveal_strlit("rename the legacy {n} to the new naming convention across the project");
        reveal_with_fuel(tidy, 52);
        assert(tidy("rename the legacy {n} to the new naming convention across the project"@, 34, set!['n']));
    }
    assert(fits("update all the deprecated {n} to the new signature repo-wide"@, set!['n']) && opens("update all the deprecated {n} to the new signature repo-wide"@, Shape::Tiered)) by {
        reveal_strlit("update all the deprecated {n} to the new signature repo-wide");
        reveal_with_fuel(tidy, 52);
        assert(tidy("update all the deprecated {n} to the new signature repo-wide"@, 25, set!['n']));
    }
    assert(fits("scaffold the standard CRUD pages for each of the {n}"@, set!['n']) && opens("scaffold the standard CRUD pages for each of the {n}"@, Shape::Tiered)) by {
        reveal_strlit("scaffold the standard CRUD pages for each of the {n}");
        reveal_with_fuel(tidy, 52);
        assert(tidy("scaffold the standard CRUD pages for each of the {n}"@, 17, set!['n']));
    }
    assert(fits("regenerate all the {n} after the schema migration"@, set!['n']) && opens("regenerate all the {n} after the schema migration"@, Shape::Tiered)) by {
        reveal_strlit("regenerate all the {n} after the schema migration");
        reveal_with_fuel(tidy, 52);
    }
    assert(fits("convert every one of the {n} to the new format across all packages"@, set!['n']) && opens("convert every one of the {n} to the new format across all packages"@, Shape::Tiered)) by {
        reveal_strlit("convert every one of the {n} to the new format across all packages");
        reveal_with_fuel(tidy, 52);
        assert(tidy("convert every one of the {n} to the new format across all packages"@, 31, set!['n']));
    }
}

/// The tasks hold no braces and tell their shape.
#[verifier::spinoff_prover]
proof fn lemma_focused_tasks()
    ensures
        forall|i: int|
            0 <= i < focused_tasks_spec().len() ==> fits(
                #[trigger] focused_tasks_spec()[i],
                Set::empty(),
            ) && told_by(focused_tasks_spec()[i]) is Solo,
{
    assert(fits("two browser tabs both submit checkout and the cart double-charges; make it deterministic"@, Set::empty()) && told_by("two browser tabs both submit checkout and the cart double-charges; make it deterministic"@) is Solo) by {
        reveal_strlit("two browser tabs both submit checkout and the cart double-charges; make it deterministic");
        reveal_with_fuel(tidy, 52);
        assert(tidy("two browser tabs both submit checkout and the cart double-charges; make it deterministic"@, 53, Set::empty()));
        assert(tidy("two browser tabs both submit checkout and the cart double-charges; make it deterministic"@, 18, Set::empty()));
    }
    assert(fits("a race between retries duplicates the write; make it exactly-once and correct"@, Set::empty()) && told_by("a race between retries duplicates the write; make it exactly-once and correct"@) is Solo) by {
        reveal_strlit("a race between retries duplicates the write; make it exactly-once and correct");
        reveal_with_fuel(tidy, 52);
        assert(tidy("a race between retries duplicates the write; make it exactly-once and correct"@, 42, Set::empty()));
        assert(tidy("a race between retries duplicates the write; make it exactly-once and correct"@, 7, Set::empty()));
    }
    assert(fits("under load the cache serves stale prices; make reads consistent and correct"@, Set::empty()) && told_by("under load the cache serves stale prices; make reads consistent and correct"@) is Solo) by {
        reveal_strlit("under load the cache serves stale prices; make reads consistent and correct");
        reveal_with_fuel(tidy, 52);
        assert(tidy("under load the cache serves stale prices; make reads consistent and correct"@, 40, Set::empty()));
    }
    assert(fits("the pagination skips a row when items are deleted mid-scroll; fix it precisely"@, Set::empty()) && told_by("the pagination skips a row when items are deleted mid-scroll; fix it precisely"@) is Solo) by {
        reveal_strlit("the pagination skips a row when items are deleted mid-scroll; fix it precisely");
        reveal_with_fuel(tidy, 52);
        assert(tidy("the pagination skips a row when items are deleted mid-scroll; fix it precisely"@, 43, Set::empty()));
        assert(tidy("the pagination skips a row when items are deleted mid-scroll; fix it precisely"@, 8, Set::empty()));
    }
    assert(fits("implement the rate limiter exactly as the approved spec defines, matching every edge case"@, Set::empty()) && told_by("implement the rate limiter exactly as the approved spec defines, matching every edge case"@) is Solo) by {
        reveal_strlit("implement the rate limiter exactly as the approved spec defines, matching every edge case");
        reveal_with_fuel(tidy, 52);
        assert(tidy("implement the rate limiter exactly as the approved spec defines, matching every edge case"@, 54, Set::empty()));
        assert(tidy("implement the rate limiter exactly as the approved spec defines, matching every edge case"@, 19, Set::empty()));
    }
    assert(fits("the CSV importer mis-parses quoted commas; make it spec-correct on every case"@, Set::empty()) && told_by("the CSV importer mis-parses quoted commas; make it spec-correct on every case"@) is Solo) by {
        reveal_strlit("the CSV importer mis-parses quoted commas; make it spec-correct on every case");
        reveal_with_fuel(tidy, 52);
        assert(tidy("the CSV importer mis-parses quoted commas; make it spec-correct on every case"@, 42, Set::empty()));
        assert(tidy("the CSV importer mis-parses quoted commas; make it spec-correct on every case"@, 7, Set::empty()));
    }
    assert(fits("the timezone math is off by an hour on DST boundaries; make it exact"@, Set::empty()) && told_by("the timezone math is off by an hour on DST boundaries; make it exact"@) is Solo) by {
        reveal_strlit("the timezone math is off by an hour on DST boundaries; make it exact");
        reveal_with_fuel(tidy, 52);
        assert(tidy("the timezone math is off by an hour on DST boundaries; make it exact"@, 33, Set::empty()));
    }
    assert(fits("the idempotency key occasionally collides; make duplicate requests safe"@, Set::empty()) && told_by("the idempotency key occasionally collides; make duplicate requests safe"@) is Solo) by {
        reveal_strlit("the idempotency key occasionally collides; make duplicate requests safe");
        reveal_with_fuel(tidy, 52);
        assert(tidy("the idempotency key occasionally collides; make duplicate requests safe"@, 36, Set::empty()));
    }
}

/// The tasks hold no braces and tell their shape.
#[verifier::spinoff_prover]
proof fn lemma_call_swaps()
    ensures
        forall|i: int|
            0 <= i < call_swaps_spec().len() ==> fits(
                #[trigger] call_swaps_spec()[i],
                Set::empty(),
            ) && told_by(call_swaps_spec()[i]) is Tiered,
{
    assert(fits("replace every sha1( call with sha512( across the whole service layer"@, Set::empty()) && told_by("replace every sha1( call with sha512( across the whole service layer"@) is Tiered) by {
        reveal_strlit("replace every sha1( call with sha512( across the whole service layer");
        reveal_with_fuel(tidy, 52);
        assert(tidy("replace every sha1( call with sha512( across the whole service layer"@, 33, Set::empty()));
    }
    assert(fits("swap each base64encode( call for base64urlencode( throughout the api code"@, Set::empty()) && told_by("swap each base64encode( call for base64urlencode( throughout the api code"@) is Tiered) by {
        reveal_strlit("swap each base64encode( call for base64urlencode( throughout the api code");
        reveal_with_fuel(tidy, 52);
        assert(tidy("swap each base64encode( call for base64urlencode( throughout the api code"@, 38, Set::empty()));
    }
    assert(fits("change every gettime( call to getmonotonic( across all the workers"@, Set::empty()) && told_by("change every gettime( call to getmonotonic( across all the workers"@) is Tiered) by {
        reveal_strlit("change every gettime( call to getmonotonic( across all the workers");
        reveal_with_fuel(tidy, 52);
        assert(tidy("change every gettime( call to getmonotonic( across all the workers"@, 31, Set::empty()));
    }
    assert(fits("replace each parseInt( call with safeParseInt( repo-wide"@, Set::empty()) && told_by("replace each parseInt( call with safeParseInt( repo-wide"@) is Tiered) by {
        reveal_strlit("replace each parseInt( call with safeParseInt( repo-wide");
        reveal_with_fuel(tidy, 52);
        assert(tidy("replace each parseInt( call with safeParseInt( repo-wide"@, 21, Set::empty()));
    }
    assert(fits("convert every logf( call to structuredLog( across all the handlers"@, Set::empty()) && told_by("convert every logf( call to structuredLog( across all the handlers"@) is Tiered) by {
        reveal_strlit("convert every logf( call to structuredLog( across all the handlers");
        reveal_with_fuel(tidy, 52);
        assert(tidy("convert every logf( call to structuredLog( across all the handlers"@, 31, Set::empty()));
    }
}

/// The tasks on the boundary, eight by eight: no braces, and their shape told.
#[verifier::spinoff_prover]
proof fn lemma_boundary_bulk()
    ensures
        forall|i: int|
            0 <= i < 8 ==> plain(#[trigger] boundary_tasks_spec()[i]),
{
    assert(plain(("replace every md5_hash(...) helper call with sha256_hash(...) across the backend services"@, Shape::Tiered))) by {
        reveal_strlit("replace every md5_hash(...) helper call with sha256_hash(...) across the backend services");
        reveal_with_fuel(tidy, 52);
        assert(tidy("replace every md5_hash(...) helper call with sha256_hash(...) across the backend services"@, 54, Set::empty()));
        assert(tidy("replace every md5_hash(...) helper call with sha256_hash(...) across the backend services"@, 19, Set::empty()));
    }
    assert(plain(("rename all crc32_checksum fields to content_digest in API structs, database mappers, and tests"@, Shape::Tiered))) by {
        reveal_strlit("rename all crc32_checksum fields to content_digest in API structs, database mappers, and tests");
        reveal_with_fuel(tidy, 52);
        assert(tidy("rename all crc32_checksum fields to content_digest in API structs, database mappers, and tests"@, 59, Set::empty()));
        assert(tidy("rename all crc32_checksum fields to content_digest in API structs, database mappers, and tests"@, 24, Set::empty()));
    }
    assert(plain(("swap every recursive_fib(...) call in benchmark fixtures to iterative_fib(...) without changing behavior"@, Shape::Tiered))) by {
        reveal_strlit("swap every recursive_fib(...) call in benchmark fixtures to iterative_fib(...) without changing behavior");
        reveal_with_fuel(tidy, 52);
        assert(tidy("swap every recursive_fib(...) call in benchmark fixtures to iterative_fib(...) without changing behavior"@, 69, Set::empty()));
        assert(tidy("swap every recursive_fib(...) call in benchmark fixtures to iterative_fib(...) without changing behavior"@, 34, Set::empty()));
    }
    assert(plain(("replace all AES128Encrypt usages with AES256Encrypt across payment, auth, worker, and migration code"@, Shape::Tiered))) by {
        reveal_strlit("replace all AES128Encrypt usages with AES256Encrypt across payment, auth, worker, and migration code");
        reveal_with_fuel(tidy, 52);
        assert(tidy("replace all AES128Encrypt usages with AES256Encrypt across payment, auth, worker, and migration code"@, 65, Set::empty()));
        assert(tidy("replace all AES128Encrypt usages with AES256Encrypt across payment, auth, worker, and migration code"@, 30, Set::empty()));
    }
    assert(plain(("convert every quicksortMetrics label to sortMetrics across telemetry emitters and dashboards"@, Shape::Tiered))) by {
        reveal_strlit("convert every quicksortMetrics label to sortMetrics across telemetry emitters and dashboards");
        reveal_with_fuel(tidy, 52);
        assert(tidy("convert every quicksortMetrics label to sortMetrics across telemetry emitters and dashboards"@, 57, Set::empty()));
        assert(tidy("convert every quicksortMetrics label to sortMetrics across telemetry emitters and dashboards"@, 22, Set::empty()));
    }
    assert(plain(("replace every legacy_rng(...) call with secure_rng(...) throughout matchmaking, loot, and tests"@, Shape::Tiered))) by {
        reveal_strlit("replace every legacy_rng(...) call with secure_rng(...) throughout matchmaking, loot, and tests");
        reveal_with_fuel(tidy, 52);
        assert(tidy("replace every legacy_rng(...) call with secure_rng(...) throughout matchmaking, loot, and tests"@, 60, Set::empty()));
        assert(tidy("replace every legacy_rng(...) call with secure_rng(...) throughout matchmaking, loot, and tests"@, 25, Set::empty()));
    }
    assert(plain(("update every DynamicProgrammingSolver import path after moving it into the algorithms module"@, Shape::Tiered))) by {
        reveal_strlit("update every DynamicProgrammingSolver import path after moving it into the algorithms module");
        reveal_with_fuel(tidy, 52);
        assert(tidy("update every DynamicProgrammingSolver import path after moving it into the algorithms module"@, 57, Set::empty()));
        assert(tidy("update every DynamicProgrammingSolver import path after moving it into the algorithms module"@, 22, Set::empty()));
    }
    assert(plain(("change every SHA1_FINGERPRINT column reference to SHA256_FINGERPRINT in repositories, queries, and fixtures"@, Shape::Tiered))) by {
        reveal_strlit("change every SHA1_FINGERPRINT column reference to SHA256_FINGERPRINT in repositories, queries, and fixtures");
        reveal_with_fuel(tidy, 52);
        assert(tidy("change every SHA1_FINGERPRINT column reference to SHA256_FINGERPRINT in repositories, queries, and fixtures"@, 72, Set::empty()));
        assert(tidy("change every SHA1_FINGERPRINT column reference to SHA256_FINGERPRINT in repositories, queries, and fixtures"@, 37, Set::empty()));
    }
}

/// The tasks on the boundary, eight by eight: no braces, and their shape told.
#[verifier::spinoff_prover]
proof fn lemma_boundary_debated()
    ensures
        forall|i: int|
            8 <= i < 16 ==> plain(#[trigger] boundary_tasks_spec()[i]),
{
    assert(plain(("choose whether enemy pathfinding should use A*, flow fields, or waypoint graphs for 200-unit battles"@, Shape::Debate))) by {
        reveal_strlit("choose whether enemy pathfinding should use A*, flow fields, or waypoint graphs for 200-unit battles");
        reveal_with_fuel(tidy, 52);
        assert(tidy("choose whether enemy pathfinding should use A*, flow fields, or waypoint graphs for 200-unit battles"@, 65, Set::empty()));
        assert(tidy("choose whether enemy pathfinding should use A*, flow fields, or waypoint graphs for 200-unit battles"@, 30, Set::empty()));
    }
    assert(plain(("balance the stamina cost, cooldown, and damage for the rogue dash attack against the warrior charge"@, Shape::Debate))) by {
        reveal_strlit("balance the stamina cost, cooldown, and damage for the rogue dash attack against the warrior charge");
        reveal_with_fuel(tidy, 52);
        assert(tidy("balance the stamina cost, cooldown, and damage for the rogue dash attack against the warrior charge"@, 64, Set::empty()));
        assert(tidy("balance the stamina cost, cooldown, and damage for the rogue dash attack against the warrior charge"@, 29, Set::empty()));
    }
    assert(plain(("decide whether the crafting system should use fixed recipes, discovery-based recipes, or skill-tree unlocks"@, Shape::Debate))) by {
        reveal_strlit("decide whether the crafting system should use fixed recipes, discovery-based recipes, or skill-tree unlocks");
        reveal_with_fuel(tidy, 52);
        assert(tidy("decide whether the crafting system should use fixed recipes, discovery-based recipes, or skill-tree unlocks"@, 72, Set::empty()));
        assert(tidy("decide whether the crafting system should use fixed recipes, discovery-based recipes, or skill-tree unlocks"@, 37, Set::empty()));
    }
    assert(plain(("tune all eight tower-defense towers for fair early-game and late-game viability"@, Shape::Debate))) by {
        reveal_strlit("tune all eight tower-defense towers for fair early-game and late-game viability");
        reveal_with_fuel(tidy, 52);
        assert(tidy("tune all eight tower-defense towers for fair early-game and late-game viability"@, 44, Set::empty()));
        assert(tidy("tune all eight tower-defense towers for fair early-game and late-game viability"@, 9, Set::empty()));
    }
    assert(plain(("choose the tradeoff between deterministic lockstep networking and server-authoritative snapshots for multiplayer"@, Shape::Debate))) by {
        reveal_strlit("choose the tradeoff between deterministic lockstep networking and server-authoritative snapshots for multiplayer");
        reveal_with_fuel(tidy, 52);
        assert(tidy("choose the tradeoff between deterministic lockstep networking and server-authoritative snapshots for multiplayer"@, 77, Set::empty()));
        assert(tidy("choose the tradeoff between deterministic lockstep networking and server-authoritative snapshots for multiplayer"@, 42, Set::empty()));
        assert(tidy("choose the tradeoff between deterministic lockstep networking and server-authoritative snapshots for multiplayer"@, 7, Set::empty()));
    }
    assert(plain(("balance enemy spawn rates, resource drops, and wave lengths so each difficulty mode feels distinct"@, Shape::Debate))) by {
        reveal_strlit("balance enemy spawn rates, resource drops, and wave lengths so each difficulty mode feels distinct");
        reveal_with_fuel(tidy, 52);
        assert(tidy("balance enemy spawn rates, resource drops, and wave lengths so each difficulty mode feels distinct"@, 63, Set::empty()));
        assert(tidy("balance enemy spawn rates, resource drops, and wave lengths so each difficulty mode feels distinct"@, 28, Set::empty()));
    }
    assert(plain(("decide whether boss fights should prioritize pattern memorization, reactive dodging, or build preparation"@, Shape::Debate))) by {
        reveal_strlit("decide whether boss fights should prioritize pattern memorization, reactive dodging, or build preparation");
        reveal_with_fuel(tidy, 52);
        assert(tidy("decide whether boss fights should prioritize pattern memorization, reactive dodging, or build preparation"@, 70, Set::empty()));
        assert(tidy("decide whether boss fights should prioritize pattern memorization, reactive dodging, or build preparation"@, 35, Set::empty()));
    }
    assert(plain(("choose how to trade off card rarity, mana cost, and win rate when rebalancing the starter deck"@, Shape::Debate))) by {
        reveal_strlit("choose how to trade off card rarity, mana cost, and win rate when rebalancing the starter deck");
        reveal_with_fuel(tidy, 52);
        assert(tidy("choose how to trade off card rarity, mana cost, and win rate when rebalancing the starter deck"@, 59, Set::empty()));
        assert(tidy("choose how to trade off card rarity, mana cost, and win rate when rebalancing the starter deck"@, 24, Set::empty()));
    }
}

/// The tasks on the boundary, eight by eight: no braces, and their shape told.
#[verifier::spinoff_prover]
proof fn lemma_boundary_focused()
    ensures
        forall|i: int|
            16 <= i < 24 ==> plain(#[trigger] boundary_tasks_spec()[i]),
{
    assert(plain(("fix the off-by-one bug in the inventory slot index calculation"@, Shape::Solo))) by {
        reveal_strlit("fix the off-by-one bug in the inventory slot index calculation");
        reveal_with_fuel(tidy, 52);
        assert(tidy("fix the off-by-one bug in the inventory slot index calculation"@, 27, Set::empty()));
    }
    assert(plain(("implement binary search for the sorted asset manifest lookup"@, Shape::Solo))) by {
        reveal_strlit("implement binary search for the sorted asset manifest lookup");
        reveal_with_fuel(tidy, 52);
        assert(tidy("implement binary search for the sorted asset manifest lookup"@, 25, Set::empty()));
    }
    assert(plain(("make the jump buffer accept input up to 120ms before landing"@, Shape::Solo))) by {
        reveal_strlit("make the jump buffer accept input up to 120ms before landing");
        reveal_with_fuel(tidy, 52);
        assert(tidy("make the jump buffer accept input up to 120ms before landing"@, 25, Set::empty()));
    }
    assert(plain(("fix the collision resolver so the player cannot clip through one-tile walls"@, Shape::Solo))) by {
        reveal_strlit("fix the collision resolver so the player cannot clip through one-tile walls");
        reveal_with_fuel(tidy, 52);
        assert(tidy("fix the collision resolver so the player cannot clip through one-tile walls"@, 40, Set::empty()));
    }
    assert(plain(("parse the level seed string into a u64 and return a clear error for invalid input"@, Shape::Solo))) by {
        reveal_strlit("parse the level seed string into a u64 and return a clear error for invalid input");
        reveal_with_fuel(tidy, 52);
        assert(tidy("parse the level seed string into a u64 and return a clear error for invalid input"@, 46, Set::empty()));
        assert(tidy("parse the level seed string into a u64 and return a clear error for invalid input"@, 11, Set::empty()));
    }
    assert(plain(("add a clamp so camera zoom stays between the configured min and max values"@, Shape::Solo))) by {
        reveal_strlit("add a clamp so camera zoom stays between the configured min and max values");
        reveal_with_fuel(tidy, 52);
        assert(tidy("add a clamp so camera zoom stays between the configured min and max values"@, 39, Set::empty()));
    }
    assert(plain(("fix the save-file checksum validation to reject truncated files"@, Shape::Solo))) by {
        reveal_strlit("fix the save-file checksum validation to reject truncated files");
        reveal_with_fuel(tidy, 52);
        assert(tidy("fix the save-file checksum validation to reject truncated files"@, 28, Set::empty()));
    }
    assert(plain(("implement deterministic dice rolls from a provided game seed"@, Shape::Solo))) by {
        reveal_strlit("implement deterministic dice rolls from a provided game seed");
        reveal_with_fuel(tidy, 52);
        assert(tidy("implement deterministic dice rolls from a provided game seed"@, 25, Set::empty()));
    }
}

// ---- The families of tasks -------------------------------------------------------

proof fn lemma_filled(
    p: (Seq<char>, Shape),
    template: Seq<char>,
    k: char,
    key: Seq<char>,
    words: Seq<Seq<char>>,
    shape: Shape,
)
    requires
        filled(p, template, key, words, shape),
        fits(template, set![k]),
        opens(template, shape),
        k != '{',
        key == seq!['{', k, '}'],
        forall|j: int| 0 <= j < words.len() ==> fits(#[trigger] words[j], Set::empty()),
    ensures
        plain(p),
{
    let j = choose|j: int|
        0 <= j < words.len() && p.0 == replaced(template, key, #[trigger] words[j]);
    lemma_replaced(template, set![k], k, key, words[j]);
    assert(set![k].remove(k) =~= Set::empty());
    lemma_opening_stays(template, shape, key, words[j]);
}

proof fn lemma_filled_any(
    p: (Seq<char>, Shape),
    templates: Seq<Seq<char>>,
    k: char,
    key: Seq<char>,
    words: Seq<Seq<char>>,
    shape: Shape,
)
    requires
        filled_any(p, templates, key, words, shape),
        k != '{',
        key == seq!['{', k, '}'],
        forall|i: int|
            0 <= i < templates.len() ==> fits(#[trigger] templates[i], set![k]) && opens(
                templates[i],
                shape,
            ),
        forall|j: int| 0 <= j < words.len() ==> fits(#[trigger] words[j], Set::empty()),
    ensures
        plain(p),
{
    let i = choose|i: int|
        0 <= i < templates.len() && filled(p, #[trigger] templates[i], key, words, shape);
    lemma_filled(p, templates[i], k, key, words, shape);
}

proof fn lemma_filled_twice(
    p: (Seq<char>, Shape),
    templates: Seq<Seq<char>>,
    k: char,
    key: Seq<char>,
    words: Seq<Seq<char>>,
    n: char,
    second: Seq<char>,
    others: Seq<Seq<char>>,
    shape: Shape,
)
    requires
        filled_twice(p, templates, key, words, second, others, shape),
        k != '{',
        n != '{',
        k != n,
        key == seq!['{', k, '}'],
        second == seq!['{', n, '}'],
        forall|i: int|
            0 <= i < templates.len() ==> fits(#[trigger] templates[i], set![k, n]) && opens(
                templates[i],
                shape,
            ),
        forall|j: int| 0 <= j < words.len() ==> fits(#[trigger] words[j], Set::empty()),
        forall|j: int| 0 <= j < others.len() ==> fits(#[trigger] others[j], Set::empty()),
    ensures
        plain(p),
{
    let i = choose|i: int|
        0 <= i < templates.len() && filled_once_more(
            p,
            #[trigger] templates[i],
            key,
            words,
            second,
            others,
            shape,
        );
    let t = templates[i];
    let j = choose|j: int|
        0 <= j < words.len() && filled(
            p,
            replaced(t, key, #[trigger] words[j]),
            second,
            others,
            shape,
        );
    lemma_replaced(t, set![k, n], k, key, words[j]);
    assert(set![k, n].remove(k) =~= set![n]);
    lemma_opening_stays(t, shape, key, words[j]);
    lemma_filled(p, replaced(t, key, words[j]), n, second, others, shape);
}

proof fn lemma_bulk(p: (Seq<char>, Shape))
    requires
        bulk(p),
    ensures
        plain(p),
{
    lemma_tiered_actions();
    lemma_tiered_targets();
    lemma_tiered_scopes();
    reveal_strlit(" ");
    reveal_with_fuel(tidy, 2);
    let none: Set<char> = Set::empty();
    let i = choose|i: int|
        0 <= i < tiered_actions_spec().len() && bulk_action(p, #[trigger] tiered_actions_spec()[i]);
    let action = tiered_actions_spec()[i];
    let j = choose|j: int|
        0 <= j < tiered_targets_spec().len() && bulk_target(
            p,
            action + " "@ + #[trigger] tiered_targets_spec()[j],
        );
    let target = tiered_targets_spec()[j];
    let deed = action + " "@ + target;
    lemma_joined(action, " "@, none);
    lemma_joined(action + " "@, target, none);
    if p.0 != deed {
        let k = choose|k: int|
            0 <= k < tiered_scopes_spec().len() && p.0 == deed + " "@
                + #[trigger] tiered_scopes_spec()[k];
        lemma_joined(deed, " "@, none);
        lemma_joined(deed + " "@, tiered_scopes_spec()[k], none);
    }
    assert(forall|m: int| 0 <= m < 8 ==> p.0[m] == action[m]);
}

proof fn lemma_added(p: (Seq<char>, Shape))
    requires
        added(p),
    ensures
        plain(p),
{
    lemma_added_things();
    lemma_edit_sites();
    let none: Set<char> = Set::empty();
    assert(fits("add "@, none)) by {
        reveal_strlit("add ");
        reveal_with_fuel(tidy, 5);
    }
    assert(fits(" to every "@, none)) by {
        reveal_strlit(" to every ");
        reveal_with_fuel(tidy, 11);
    }
    assert(fits(" across all services"@, none)) by {
        reveal_strlit(" across all services");
        reveal_with_fuel(tidy, 21);
    }
    let i = choose|i: int|
        0 <= i < added_things_spec().len() && added_thing(p, #[trigger] added_things_spec()[i]);
    let thing = added_things_spec()[i];
    let j = choose|j: int|
        0 <= j < edit_sites_spec().len() && p.0 == "add "@ + thing + " to every "@
            + #[trigger] edit_sites_spec()[j] + " across all services"@;
    let site = edit_sites_spec()[j];
    let a = "add "@ + thing;
    let b = a + " to every "@;
    lemma_joined("add "@, thing, none);
    lemma_joined(a, " to every "@, none);
    lemma_joined(b, site, none);
    lemma_joined(b + site, " across all services"@, none);
    assert(p.0[0] == 'a' && p.0[1] == 'd' && p.0[2] == 'd' && p.0[6] == thing[2] && p.0[7]
        == thing[3]) by {
        reveal_strlit("add ");
    }
}

proof fn lemma_corpus_is_plain(p: (Seq<char>, Shape))
    requires
        in_corpus(p),
    ensures
        plain(p),
{
    assert("{x}"@ =~= seq!['{', 'x', '}']) by {
        reveal_strlit("{x}");
    }
    assert("{a}"@ =~= seq!['{', 'a', '}']) by {
        reveal_strlit("{a}");
    }
    assert("{s}"@ =~= seq!['{', 's', '}']) by {
        reveal_strlit("{s}");
    }
    assert("{n}"@ =~= seq!['{', 'n', '}']) by {
        reveal_strlit("{n}");
    }
    assert("{t}"@ =~= seq!['{', 't', '}']) by {
        reveal_strlit("{t}");
    }
    if filled_any(p, solo_templates_spec(), "{x}"@, solo_subjects_spec(), Shape::Solo) {
        lemma_solo_templates();
        lemma_solo_subjects();
        lemma_filled_any(p, solo_templates_spec(), 'x', "{x}"@, solo_subjects_spec(), Shape::Solo);
    } else if bulk(p) {
        lemma_bulk(p);
    } else if filled_twice(
        p,
        debate_templates_spec(),
        "{a}"@,
        debate_aspects_spec(),
        "{s}"@,
        debate_systems_spec(),
        Shape::Debate,
    ) {
        lemma_debate_templates();
        lemma_debate_aspects();
        lemma_debate_systems();
        lemma_filled_twice(
            p,
            debate_templates_spec(),
            'a',
            "{a}"@,
            debate_aspects_spec(),
            's',
            "{s}"@,
            debate_systems_spec(),
            Shape::Debate,
        );
    } else if filled_any(
        p,
        mechanical_templates_spec(),
        "{n}"@,
        algorithmic_nouns_spec(),
        Shape::Tiered,
    ) {
        lemma_mechanical_templates();
        lemma_algorithmic_nouns();
        lemma_filled_any(
            p,
            mechanical_templates_spec(),
            'n',
            "{n}"@,
            algorithmic_nouns_spec(),
            Shape::Tiered,
        );
    } else if added(p) {
        lemma_added(p);
    } else if filled_twice(
        p,
        contested_templates_spec(),
        "{s}"@,
        contested_systems_spec(),
        "{t}"@,
        contested_technologies_spec(),
        Shape::Debate,
    ) {
        lemma_contested_templates();
        lemma_contested_systems();
        lemma_contested_technologies();
        lemma_filled_twice(
            p,
            contested_templates_spec(),
            's',
            "{s}"@,
            contested_systems_spec(),
            't',
            "{t}"@,
            contested_technologies_spec(),
            Shape::Debate,
        );
    } else if listed(p, focused_tasks_spec(), Shape::Solo) {
        lemma_focused_tasks();
    } else if filled_any(
        p,
        bulk_templates_spec(),
        "{n}"@,
        infrastructure_nouns_spec(),
        Shape::Tiered,
    ) {
        lemma_bulk_templates();
        lemma_infrastructure_nouns();
        lemma_filled_any(
            p,
            bulk_templates_spec(),
            'n',
            "{n}"@,
            infrastructure_nouns_spec(),
            Shape::Tiered,
        );
    } else if listed(p, call_swaps_spec(), Shape::Tiered) {
        lemma_call_swaps();
    } else {
        lemma_boundary_bulk();
        lemma_boundary_debated();
        lemma_boundary_focused();
        let i = choose|i: int|
            0 <= i < boundary_tasks_spec().len() && boundary_tasks_spec()[i] == p;
        assert(plain(boundary_tasks_spec()[i]));
    }
}

// ---- Laws ------------------------------------------------------------------------

/// No task of the corpus stands under two shapes.
pub proof fn law_no_task_has_two_shapes(task: Seq<char>, a: Shape, b: Shape)
    requires
        in_corpus((task, a)),
        in_corpus((task, b)),
    ensures
        a == b,
{
    lemma_corpus_is_plain((task, a));
    lemma_corpus_is_plain((task, b));
}

/// No task of the corpus holds a brace: every key of every template is filled
/// in.
pub proof fn law_every_key_is_filled(task: Seq<char>, shape: Shape)
    requires
        in_corpus((task, shape)),
    ensures
        !task.contains('{'),
        !task.contains('}'),
{
    lemma_corpus_is_plain((task, shape));
    assert forall|j: int| 0 <= j < task.len() implies #[trigger] task[j] != '{' && task[j] != '}' by {
        lemma_without_keys(task, 0, j);
    }
}

} // verus!
