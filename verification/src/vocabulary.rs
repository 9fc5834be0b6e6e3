//! The vocabulary of the training corpus, and the words that tell tasks apart.
use vstd::prelude::*;
use crate::coordinator::Shape;

verus! {

/// A list of texts.
pub open spec fn strs(v: Seq<&'static str>) -> Seq<Seq<char>> {
    Seq::new(v.len(), |i: int| v[i]@)
}

/// A list of tasks with their shapes.
pub open spec fn labelled_strs(v: Seq<(&'static str, Shape)>) -> Seq<(Seq<char>, Shape)> {
    Seq::new(v.len(), |i: int| (v[i].0@, v[i].1))
}

/// Words of algorithmic work.
pub open spec fn algorithmic_words_spec() -> Seq<Seq<char>> {
    seq![
        "algorithm"@,
        "parser"@,
        "regex"@,
        "regular expression"@,
        "solver"@,
        "solve"@,
        "optimi"@,
        "complexity"@,
        "recursi"@,
        "data structure"@,
        "tree"@,
        "graph"@,
        "heap"@,
        "sort"@,
        "search"@,
        "dynamic programming"@,
        "np-"@,
        "compiler"@,
        "interpreter"@,
        "tokeniz"@,
        "encode"@,
        "decode"@,
        "hash"@,
        "cipher"@,
        "matrix"@,
        "numeric"@,
    ]
}

/// Words of algorithmic work.
pub fn algorithmic_words() -> (r: Vec<&'static str>)
    ensures
        strs(r@) == algorithmic_words_spec(),
{
    let r = vec![
        "algorithm",
        "parser",
        "regex",
        "regular expression",
        "solver",
        "solve",
        "optimi",
        "complexity",
        "recursi",
        "data structure",
        "tree",
        "graph",
        "heap",
        "sort",
        "search",
        "dynamic programming",
        "np-",
        "compiler",
        "interpreter",
        "tokeniz",
        "encode",
        "decode",
        "hash",
        "cipher",
        "matrix",
        "numeric",
    ];
    proof {
        assert(strs(r@) =~= algorithmic_words_spec());
    }
    r
}

/// Words of mechanical volume.
pub open spec fn volume_words_spec() -> Seq<Seq<char>> {
    seq![
        "crud"@,
        "endpoint"@,
        "boilerplate"@,
        "scaffold"@,
        "migrate"@,
        "migration"@,
        "rename"@,
        "across the"@,
        "all files"@,
        "every file"@,
        "repetitive"@,
        "bulk"@,
        "wire up"@,
        "stub"@,
        "generate the"@,
        "for each"@,
        "throughout"@,
        "port the"@,
        "convert all"@,
        "add tests for"@,
    ]
}

/// Words of mechanical volume.
pub fn volume_words() -> (r: Vec<&'static str>)
    ensures
        strs(r@) == volume_words_spec(),
{
    let r = vec![
        "crud",
        "endpoint",
        "boilerplate",
        "scaffold",
        "migrate",
        "migration",
        "rename",
        "across the",
        "all files",
        "every file",
        "repetitive",
        "bulk",
        "wire up",
        "stub",
        "generate the",
        "for each",
        "throughout",
        "port the",
        "convert all",
        "add tests for",
    ];
    proof {
        assert(strs(r@) =~= volume_words_spec());
    }
    r
}

/// Words of open questions.
pub open spec fn ambiguity_words_spec() -> Seq<Seq<char>> {
    seq![
        "design"@,
        "architect"@,
        "approach"@,
        "strategy"@,
        "tradeoff"@,
        "trade-off"@,
        "decide"@,
        "should we"@,
        "which"@,
        "vs"@,
        "versus"@,
        "propose"@,
        "evaluate"@,
        "options"@,
        "best way"@,
        "refactor"@,
        "rethink"@,
        "plan the"@,
        "structure the"@,
    ]
}

/// Words of open questions.
pub fn ambiguity_words() -> (r: Vec<&'static str>)
    ensures
        strs(r@) == ambiguity_words_spec(),
{
    let r = vec![
        "design",
        "architect",
        "approach",
        "strategy",
        "tradeoff",
        "trade-off",
        "decide",
        "should we",
        "which",
        "vs",
        "versus",
        "propose",
        "evaluate",
        "options",
        "best way",
        "refactor",
        "rethink",
        "plan the",
        "structure the",
    ];
    proof {
        assert(strs(r@) =~= ambiguity_words_spec());
    }
    r
}

/// Words of work in which correctness is critical.
pub open spec fn correctness_words_spec() -> Seq<Seq<char>> {
    seq![
        "correct"@,
        "exact"@,
        "edge case"@,
        "edge-case"@,
        "must not"@,
        "invariant"@,
        "race"@,
        "concurren"@,
        "deadlock"@,
        "security"@,
        "auth"@,
        "crypto"@,
        "payment"@,
        "money"@,
        "precise"@,
        "spec"@,
        "guarantee"@,
        "atomic"@,
    ]
}

/// Words of work in which correctness is critical.
pub fn correctness_words() -> (r: Vec<&'static str>)
    ensures
        strs(r@) == correctness_words_spec(),
{
    let r = vec![
        "correct",
        "exact",
        "edge case",
        "edge-case",
        "must not",
        "invariant",
        "race",
        "concurren",
        "deadlock",
        "security",
        "auth",
        "crypto",
        "payment",
        "money",
        "precise",
        "spec",
        "guarantee",
        "atomic",
    ];
    proof {
        assert(strs(r@) =~= correctness_words_spec());
    }
    r
}

/// Words of changes throughout a codebase.
pub open spec fn breadth_words_spec() -> Seq<Seq<char>> {
    seq![
        "across"@,
        "every"@,
        "all "@,
        "entire"@,
        "whole"@,
        "codebase"@,
        "project-wide"@,
        "multiple files"@,
        "everywhere"@,
        "globally"@,
    ]
}

/// Words of changes throughout a codebase.
pub fn breadth_words() -> (r: Vec<&'static str>)
    ensures
        strs(r@) == breadth_words_spec(),
{
    let r = vec![
        "across",
        "every",
        "all ",
        "entire",
        "whole",
        "codebase",
        "project-wide",
        "multiple files",
        "everywhere",
        "globally",
    ];
    proof {
        assert(strs(r@) =~= breadth_words_spec());
    }
    r
}

/// Words of work that can be verified.
pub open spec fn verifiability_words_spec() -> Seq<Seq<char>> {
    seq![
        "test"@,
        "tests"@,
        "oracle"@,
        "assert"@,
        "verify"@,
        "ci"@,
        "lint"@,
        "type check"@,
        "compile"@,
        "passes"@,
    ]
}

/// Words of work that can be verified.
pub fn verifiability_words() -> (r: Vec<&'static str>)
    ensures
        strs(r@) == verifiability_words_spec(),
{
    let r = vec![
        "test",
        "tests",
        "oracle",
        "assert",
        "verify",
        "ci",
        "lint",
        "type check",
        "compile",
        "passes",
    ];
    proof {
        assert(strs(r@) =~= verifiability_words_spec());
    }
    r
}

/// What is to be implemented.
pub open spec fn solo_subjects_spec() -> Seq<Seq<char>> {
    seq![
        "quicksort with a median-of-three pivot"@,
        "an in-place mergesort"@,
        "Dijkstra's shortest path with a binary heap"@,
        "an A* pathfinder with a consistent heuristic"@,
        "a red-black tree with deletion"@,
        "an AVL tree with rebalancing"@,
        "a B-tree with split and merge"@,
        "a trie with prefix search and deletion"@,
        "an open-addressing hash map"@,
        "a counting bloom filter"@,
        "a min-heap with decrease-key"@,
        "an O(1) LRU cache"@,
        "a backtracking regex engine"@,
        "a streaming JSON parser"@,
        "a recursive-descent expression parser"@,
        "a cycle-detecting topological sort"@,
        "the edit-distance dynamic program"@,
        "a 0/1 knapsack solver with reconstruction"@,
        "run-length encoding and decoding"@,
        "a suffix automaton for substring queries"@,
    ]
}

/// What is to be implemented.
pub fn solo_subjects() -> (r: Vec<&'static str>)
    ensures
        strs(r@) == solo_subjects_spec(),
{
    let r = vec![
        "quicksort with a median-of-three pivot",
        "an in-place mergesort",
        "Dijkstra's shortest path with a binary heap",
        "an A* pathfinder with a consistent heuristic",
        "a red-black tree with deletion",
        "an AVL tree with rebalancing",
        "a B-tree with split and merge",
        "a trie with prefix search and deletion",
        "an open-addressing hash map",
        "a counting bloom filter",
        "a min-heap with decrease-key",
        "an O(1) LRU cache",
        "a backtracking regex engine",
        "a streaming JSON parser",
        "a recursive-descent expression parser",
        "a cycle-detecting topological sort",
        "the edit-distance dynamic program",
        "a 0/1 knapsack solver with reconstruction",
        "run-length encoding and decoding",
        "a suffix automaton for substring queries",
    ];
    proof {
        assert(strs(r@) =~= solo_subjects_spec());
    }
    r
}

/// How an implementation is asked for.
pub open spec fn solo_templates_spec() -> Seq<Seq<char>> {
    seq![
        "implement {x} with full correctness"@,
        "write {x} from scratch"@,
        "build {x} and handle the edge cases"@,
        "implement {x} and verify it against an oracle"@,
        "code {x} with optimal time complexity"@,
    ]
}

/// How an implementation is asked for.
pub fn solo_templates() -> (r: Vec<&'static str>)
    ensures
        strs(r@) == solo_templates_spec(),
{
    let r = vec![
        "implement {x} with full correctness",
        "write {x} from scratch",
        "build {x} and handle the edge cases",
        "implement {x} and verify it against an oracle",
        "code {x} with optimal time complexity",
    ];
    proof {
        assert(strs(r@) =~= solo_templates_spec());
    }
    r
}

/// What is done to many things.
pub open spec fn tiered_actions_spec() -> Seq<Seq<char>> {
    seq![
        "migrate all"@,
        "rename every"@,
        "convert all"@,
        "update all"@,
        "add tests for all"@,
        "reformat every"@,
        "regenerate all"@,
    ]
}

/// What is done to many things.
pub fn tiered_actions() -> (r: Vec<&'static str>)
    ensures
        strs(r@) == tiered_actions_spec(),
{
    let r = vec![
        "migrate all",
        "rename every",
        "convert all",
        "update all",
        "add tests for all",
        "reformat every",
        "regenerate all",
    ];
    proof {
        assert(strs(r@) =~= tiered_actions_spec());
    }
    r
}

/// To what it is done.
pub open spec fn tiered_targets_spec() -> Seq<Seq<char>> {
    seq![
        "the API endpoints"@,
        "the React components"@,
        "the test files"@,
        "the config files"@,
        "the model classes"@,
        "the route handlers"@,
        "the serializers"@,
        "the import statements"@,
    ]
}

/// To what it is done.
pub fn tiered_targets() -> (r: Vec<&'static str>)
    ensures
        strs(r@) == tiered_targets_spec(),
{
    let r = vec![
        "the API endpoints",
        "the React components",
        "the test files",
        "the config files",
        "the model classes",
        "the route handlers",
        "the serializers",
        "the import statements",
    ];
    proof {
        assert(strs(r@) =~= tiered_targets_spec());
    }
    r
}

/// How far it is done.
pub open spec fn tiered_scopes_spec() -> Seq<Seq<char>> {
    seq![
        "across the codebase"@,
        "throughout the service"@,
        "in every module"@,
        "project-wide"@,
        "across all packages"@,
    ]
}

/// How far it is done.
pub fn tiered_scopes() -> (r: Vec<&'static str>)
    ensures
        strs(r@) == tiered_scopes_spec(),
{
    let r = vec![
        "across the codebase",
        "throughout the service",
        "in every module",
        "project-wide",
        "across all packages",
    ];
    proof {
        assert(strs(r@) =~= tiered_scopes_spec());
    }
    r
}

/// What is open.
pub open spec fn debate_aspects_spec() -> Seq<Seq<char>> {
    seq![
        "the caching strategy"@,
        "the auth architecture"@,
        "the data model"@,
        "the offline-sync approach"@,
        "the error-handling strategy"@,
        "the rate-limiting approach"@,
        "the sharding scheme"@,
        "the public API design"@,
    ]
}

/// What is open.
pub fn debate_aspects() -> (r: Vec<&'static str>)
    ensures
        strs(r@) == debate_aspects_spec(),
{
    let r = vec![
        "the caching strategy",
        "the auth architecture",
        "the data model",
        "the offline-sync approach",
        "the error-handling strategy",
        "the rate-limiting approach",
        "the sharding scheme",
        "the public API design",
    ];
    proof {
        assert(strs(r@) =~= debate_aspects_spec());
    }
    r
}

/// Of which system it is open.
pub open spec fn debate_systems_spec() -> Seq<Seq<char>> {
    seq![
        "the payments service"@,
        "the notification system"@,
        "the multi-tenant platform"@,
        "the offline-first app"@,
        "the analytics pipeline"@,
        "the plugin system"@,
    ]
}

/// Of which system it is open.
pub fn debate_systems() -> (r: Vec<&'static str>)
    ensures
        strs(r@) == debate_systems_spec(),
{
    let r = vec![
        "the payments service",
        "the notification system",
        "the multi-tenant platform",
        "the offline-first app",
        "the analytics pipeline",
        "the plugin system",
    ];
    proof {
        assert(strs(r@) =~= debate_systems_spec());
    }
    r
}

/// How a decision is asked for.
pub open spec fn debate_templates_spec() -> Seq<Seq<char>> {
    seq![
        "decide {a} for {s}"@,
        "design {a} for {s}"@,
        "propose an approach to {a} in {s}"@,
        "evaluate the options for {a} of {s}"@,
        "figure out the best way to handle {a} in {s}"@,
    ]
}

/// How a decision is asked for.
pub fn debate_templates() -> (r: Vec<&'static str>)
    ensures
        strs(r@) == debate_templates_spec(),
{
    let r = vec![
        "decide {a} for {s}",
        "design {a} for {s}",
        "propose an approach to {a} in {s}",
        "evaluate the options for {a} of {s}",
        "figure out the best way to handle {a} in {s}",
    ];
    proof {
        assert(strs(r@) =~= debate_templates_spec());
    }
    r
}

/// Things that sound algorithmic.
pub open spec fn algorithmic_nouns_spec() -> Seq<Seq<char>> {
    seq![
        "quicksort"@,
        "heapsort"@,
        "binary-search"@,
        "hash"@,
        "parser"@,
        "tokenizer"@,
        "graph-traversal"@,
        "LRU cache"@,
        "b-tree"@,
        "regex"@,
    ]
}

/// Things that sound algorithmic.
pub fn algorithmic_nouns() -> (r: Vec<&'static str>)
    ensures
        strs(r@) == algorithmic_nouns_spec(),
{
    let r = vec![
        "quicksort",
        "heapsort",
        "binary-search",
        "hash",
        "parser",
        "tokenizer",
        "graph-traversal",
        "LRU cache",
        "b-tree",
        "regex",
    ];
    proof {
        assert(strs(r@) =~= algorithmic_nouns_spec());
    }
    r
}

/// Mechanical edits to things that sound algorithmic.
pub open spec fn mechanical_templates_spec() -> Seq<Seq<char>> {
    seq![
        "rename the {n} helpers to camelCase across all files"@,
        "replace every call to the {n} routine throughout the codebase"@,
        "convert all the {n} modules to the new API across the repo"@,
        "update each handler that uses the {n} to the new signature project-wide"@,
    ]
}

/// Mechanical edits to things that sound algorithmic.
pub fn mechanical_templates() -> (r: Vec<&'static str>)
    ensures
        strs(r@) == mechanical_templates_spec(),
{
    let r = vec![
        "rename the {n} helpers to camelCase across all files",
        "replace every call to the {n} routine throughout the codebase",
        "convert all the {n} modules to the new API across the repo",
        "update each handler that uses the {n} to the new signature project-wide",
    ];
    proof {
        assert(strs(r@) =~= mechanical_templates_spec());
    }
    r
}

/// Places that many edits touch.
pub open spec fn edit_sites_spec() -> Seq<Seq<char>> {
    seq![
        "API endpoint"@,
        "request handler"@,
        "controller"@,
        "route"@,
        "serializer"@,
        "service"@,
    ]
}

/// Places that many edits touch.
pub fn edit_sites() -> (r: Vec<&'static str>)
    ensures
        strs(r@) == edit_sites_spec(),
{
    let r = vec![
        "API endpoint",
        "request handler",
        "controller",
        "route",
        "serializer",
        "service",
    ];
    proof {
        assert(strs(r@) =~= edit_sites_spec());
    }
    r
}

/// What is added in many places.
pub open spec fn added_things_spec() -> Seq<Seq<char>> {
    seq![
        "a traceId field"@,
        "structured logging"@,
        "the new auth header"@,
        "a correlation id"@,
    ]
}

/// What is added in many places.
pub fn added_things() -> (r: Vec<&'static str>)
    ensures
        strs(r@) == added_things_spec(),
{
    let r = vec![
        "a traceId field",
        "structured logging",
        "the new auth header",
        "a correlation id",
    ];
    proof {
        assert(strs(r@) =~= added_things_spec());
    }
    r
}

/// Systems whose fate is to be decided.
pub open spec fn contested_systems_spec() -> Seq<Seq<char>> {
    seq![
        "services"@,
        "cron jobs"@,
        "controllers"@,
        "data models"@,
        "endpoints"@,
    ]
}

/// Systems whose fate is to be decided.
pub fn contested_systems() -> (r: Vec<&'static str>)
    ensures
        strs(r@) == contested_systems_spec(),
{
    let r = vec![
        "services",
        "cron jobs",
        "controllers",
        "data models",
        "endpoints",
    ];
    proof {
        assert(strs(r@) =~= contested_systems_spec());
    }
    r
}

/// What they may become.
pub open spec fn contested_technologies_spec() -> Seq<Seq<char>> {
    seq![
        "the message queue"@,
        "gRPC"@,
        "the new framework"@,
        "an event-sourced model"@,
    ]
}

/// What they may become.
pub fn contested_technologies() -> (r: Vec<&'static str>)
    ensures
        strs(r@) == contested_technologies_spec(),
{
    let r = vec![
        "the message queue",
        "gRPC",
        "the new framework",
        "an event-sourced model",
    ];
    proof {
        assert(strs(r@) =~= contested_technologies_spec());
    }
    r
}

/// Decisions that sound like volume.
pub open spec fn contested_templates_spec() -> Seq<Seq<char>> {
    seq![
        "decide whether to migrate all the {s} to {t}, and lay out the rollout plan"@,
        "weigh whether to rename the entire {s} layer, given the downstream breakage"@,
        "should we rewrite all the {s} or refactor them in place — make the call"@,
        "figure out whether to convert every one of the {s} to {t} and how"@,
    ]
}

/// Decisions that sound like volume.
pub fn contested_templates() -> (r: Vec<&'static str>)
    ensures
        strs(r@) == contested_templates_spec(),
{
    let r = vec![
        "decide whether to migrate all the {s} to {t}, and lay out the rollout plan",
        "weigh whether to rename the entire {s} layer, given the downstream breakage",
        "should we rewrite all the {s} or refactor them in place — make the call",
        "figure out whether to convert every one of the {s} to {t} and how",
    ];
    proof {
        assert(strs(r@) =~= contested_templates_spec());
    }
    r
}

/// Focused work on correctness.
pub open spec fn focused_tasks_spec() -> Seq<Seq<char>> {
    seq![
        "two browser tabs both submit checkout and the cart double-charges; make it deterministic"@,
        "a race between retries duplicates the write; make it exactly-once and correct"@,
        "under load the cache serves stale prices; make reads consistent and correct"@,
        "the pagination skips a row when items are deleted mid-scroll; fix it precisely"@,
        "implement the rate limiter exactly as the approved spec defines, matching every edge case"@,
        "the CSV importer mis-parses quoted commas; make it spec-correct on every case"@,
        "the timezone math is off by an hour on DST boundaries; make it exact"@,
        "the idempotency key occasionally collides; make duplicate requests safe"@,
    ]
}

/// Focused work on correctness.
pub fn focused_tasks() -> (r: Vec<&'static str>)
    ensures
        strs(r@) == focused_tasks_spec(),
{
    let r = vec![
        "two browser tabs both submit checkout and the cart double-charges; make it deterministic",
        "a race between retries duplicates the write; make it exactly-once and correct",
        "under load the cache serves stale prices; make reads consistent and correct",
        "the pagination skips a row when items are deleted mid-scroll; fix it precisely",
        "implement the rate limiter exactly as the approved spec defines, matching every edge case",
        "the CSV importer mis-parses quoted commas; make it spec-correct on every case",
        "the timezone math is off by an hour on DST boundaries; make it exact",
        "the idempotency key occasionally collides; make duplicate requests safe",
    ];
    proof {
        assert(strs(r@) =~= focused_tasks_spec());
    }
    r
}

/// Things that sound architectural.
pub open spec fn infrastructure_nouns_spec() -> Seq<Seq<char>> {
    seq![
        "api endpoints"@,
        "route handlers"@,
        "controllers"@,
        "serializers"@,
        "data models"@,
        "config files"@,
        "service modules"@,
        "database queries"@,
        "view templates"@,
        "graphql resolvers"@,
    ]
}

/// Things that sound architectural.
pub fn infrastructure_nouns() -> (r: Vec<&'static str>)
    ensures
        strs(r@) == infrastructure_nouns_spec(),
{
    let r = vec![
        "api endpoints",
        "route handlers",
        "controllers",
        "serializers",
        "data models",
        "config files",
        "service modules",
        "database queries",
        "view templates",
        "graphql resolvers",
    ];
    proof {
        assert(strs(r@) =~= infrastructure_nouns_spec());
    }
    r
}

/// Bulk edits to things that sound architectural.
pub open spec fn bulk_templates_spec() -> Seq<Seq<char>> {
    seq![
        "rename the legacy {n} to the new naming convention across the project"@,
        "update all the deprecated {n} to the new signature repo-wide"@,
        "scaffold the standard CRUD pages for each of the {n}"@,
        "regenerate all the {n} after the schema migration"@,
        "convert every one of the {n} to the new format across all packages"@,
    ]
}

/// Bulk edits to things that sound architectural.
pub fn bulk_templates() -> (r: Vec<&'static str>)
    ensures
        strs(r@) == bulk_templates_spec(),
{
    let r = vec![
        "rename the legacy {n} to the new naming convention across the project",
        "update all the deprecated {n} to the new signature repo-wide",
        "scaffold the standard CRUD pages for each of the {n}",
        "regenerate all the {n} after the schema migration",
        "convert every one of the {n} to the new format across all packages",
    ];
    proof {
        assert(strs(r@) =~= bulk_templates_spec());
    }
    r
}

/// Calls that are swapped throughout.
pub open spec fn call_swaps_spec() -> Seq<Seq<char>> {
    seq![
        "replace every sha1( call with sha512( across the whole service layer"@,
        "swap each base64encode( call for base64urlencode( throughout the api code"@,
        "change every gettime( call to getmonotonic( across all the workers"@,
        "replace each parseInt( call with safeParseInt( repo-wide"@,
        "convert every logf( call to structuredLog( across all the handlers"@,
    ]
}

/// Calls that are swapped throughout.
pub fn call_swaps() -> (r: Vec<&'static str>)
    ensures
        strs(r@) == call_swaps_spec(),
{
    let r = vec![
        "replace every sha1( call with sha512( across the whole service layer",
        "swap each base64encode( call for base64urlencode( throughout the api code",
        "change every gettime( call to getmonotonic( across all the workers",
        "replace each parseInt( call with safeParseInt( repo-wide",
        "convert every logf( call to structuredLog( across all the handlers",
    ];
    proof {
        assert(strs(r@) =~= call_swaps_spec());
    }
    r
}

/// Single tasks at the boundaries between the shapes.
pub open spec fn boundary_tasks_spec() -> Seq<(Seq<char>, Shape)> {
    seq![
        ("replace every md5_hash(...) helper call with sha256_hash(...) across the backend services"@, Shape::Tiered),
        ("rename all crc32_checksum fields to content_digest in API structs, database mappers, and tests"@, Shape::Tiered),
        ("swap every recursive_fib(...) call in benchmark fixtures to iterative_fib(...) without changing behavior"@, Shape::Tiered),
        ("replace all AES128Encrypt usages with AES256Encrypt across payment, auth, worker, and migration code"@, Shape::Tiered),
        ("convert every quicksortMetrics label to sortMetrics across telemetry emitters and dashboards"@, Shape::Tiered),
        ("replace every legacy_rng(...) call with secure_rng(...) throughout matchmaking, loot, and tests"@, Shape::Tiered),
        ("update every DynamicProgrammingSolver import path after moving it into the algorithms module"@, Shape::Tiered),
        ("change every SHA1_FINGERPRINT column reference to SHA256_FINGERPRINT in repositories, queries, and fixtures"@, Shape::Tiered),
        ("choose whether enemy pathfinding should use A*, flow fields, or waypoint graphs for 200-unit battles"@, Shape::Debate),
        ("balance the stamina cost, cooldown, and damage for the rogue dash attack against the warrior charge"@, Shape::Debate),
        ("decide whether the crafting system should use fixed recipes, discovery-based recipes, or skill-tree unlocks"@, Shape::Debate),
        ("tune all eight tower-defense towers for fair early-game and late-game viability"@, Shape::Debate),
        ("choose the tradeoff between deterministic lockstep networking and server-authoritative snapshots for multiplayer"@, Shape::Debate),
        ("balance enemy spawn rates, resource drops, and wave lengths so each difficulty mode feels distinct"@, Shape::Debate),
        ("decide whether boss fights should prioritize pattern memorization, reactive dodging, or build preparation"@, Shape::Debate),
        ("choose how to trade off card rarity, mana cost, and win rate when rebalancing the starter deck"@, Shape::Debate),
        ("fix the off-by-one bug in the inventory slot index calculation"@, Shape::Solo),
        ("implement binary search for the sorted asset manifest lookup"@, Shape::Solo),
        ("make the jump buffer accept input up to 120ms before landing"@, Shape::Solo),
        ("fix the collision resolver so the player cannot clip through one-tile walls"@, Shape::Solo),
        ("parse the level seed string into a u64 and return a clear error for invalid input"@, Shape::Solo),
        ("add a clamp so camera zoom stays between the configured min and max values"@, Shape::Solo),
        ("fix the save-file checksum validation to reject truncated files"@, Shape::Solo),
        ("implement deterministic dice rolls from a provided game seed"@, Shape::Solo),
    ]
}

/// Single tasks at the boundaries between the shapes.
pub fn boundary_tasks() -> (r: Vec<(&'static str, Shape)>)
    ensures
        labelled_strs(r@) == boundary_tasks_spec(),
{
    let r = vec![
        ("replace every md5_hash(...) helper call with sha256_hash(...) across the backend services", Shape::Tiered),
        ("rename all crc32_checksum fields to content_digest in API structs, database mappers, and tests", Shape::Tiered),
        ("swap every recursive_fib(...) call in benchmark fixtures to iterative_fib(...) without changing behavior", Shape::Tiered),
        ("replace all AES128Encrypt usages with AES256Encrypt across payment, auth, worker, and migration code", Shape::Tiered),
        ("convert every quicksortMetrics label to sortMetrics across telemetry emitters and dashboards", Shape::Tiered),
        ("replace every legacy_rng(...) call with secure_rng(...) throughout matchmaking, loot, and tests", Shape::Tiered),
        ("update every DynamicProgrammingSolver import path after moving it into the algorithms module", Shape::Tiered),
        ("change every SHA1_FINGERPRINT column reference to SHA256_FINGERPRINT in repositories, queries, and fixtures", Shape::Tiered),
        ("choose whether enemy pathfinding should use A*, flow fields, or waypoint graphs for 200-unit battles", Shape::Debate),
        ("balance the stamina cost, cooldown, and damage for the rogue dash attack against the warrior charge", Shape::Debate),
        ("decide whether the crafting system should use fixed recipes, discovery-based recipes, or skill-tree unlocks", Shape::Debate),
        ("tune all eight tower-defense towers for fair early-game and late-game viability", Shape::Debate),
        ("choose the tradeoff between deterministic lockstep networking and server-authoritative snapshots for multiplayer", Shape::Debate),
        ("balance enemy spawn rates, resource drops, and wave lengths so each difficulty mode feels distinct", Shape::Debate),
        ("decide whether boss fights should prioritize pattern memorization, reactive dodging, or build preparation", Shape::Debate),
        ("choose how to trade off card rarity, mana cost, and win rate when rebalancing the starter deck", Shape::Debate),
        ("fix the off-by-one bug in the inventory slot index calculation", Shape::Solo),
        ("implement binary search for the sorted asset manifest lookup", Shape::Solo),
        ("make the jump buffer accept input up to 120ms before landing", Shape::Solo),
        ("fix the collision resolver so the player cannot clip through one-tile walls", Shape::Solo),
        ("parse the level seed string into a u64 and return a clear error for invalid input", Shape::Solo),
        ("add a clamp so camera zoom stays between the configured min and max values", Shape::Solo),
        ("fix the save-file checksum validation to reject truncated files", Shape::Solo),
        ("implement deterministic dice rolls from a provided game seed", Shape::Solo),
    ];
    proof {
        assert(labelled_strs(r@) =~= boundary_tasks_spec());
    }
    r
}

/// The tasks with which a coordinator starts.
pub open spec fn seed_corpus_spec() -> Seq<(Seq<char>, Shape)> {
    seq![
        ("implement a regex engine supporting groups, alternation, and character classes"@, Shape::Solo),
        ("write a balanced AVL tree with insert, delete, and rebalancing"@, Shape::Solo),
        ("implement Dijkstra shortest path with a binary heap"@, Shape::Solo),
        ("solve the 0/1 knapsack with dynamic programming and reconstruct the chosen items"@, Shape::Solo),
        ("write a recursive descent parser for arithmetic expressions with precedence"@, Shape::Solo),
        ("implement a LRU cache with O(1) get and put"@, Shape::Solo),
        ("build a topological sort that detects cycles"@, Shape::Solo),
        ("implement run-length encoding and decoding with exact round-trip correctness"@, Shape::Solo),
        ("write a function to compute edit distance between two strings"@, Shape::Solo),
        ("implement a thread-safe lock-free queue avoiding the ABA race"@, Shape::Solo),
        ("write a JSON tokenizer handling escapes and nested structures"@, Shape::Solo),
        ("implement a red-black tree deletion with correct fixups"@, Shape::Solo),
        ("add CRUD endpoints for the users, posts, and comments resources"@, Shape::Tiered),
        ("migrate all React components from class syntax to function components"@, Shape::Tiered),
        ("rename getUser to fetchUser across the entire codebase"@, Shape::Tiered),
        ("scaffold REST handlers and route stubs for twelve resources"@, Shape::Tiered),
        ("add unit tests for each utility function in the helpers module"@, Shape::Tiered),
        ("wire up boilerplate serializers for every model in the schema"@, Shape::Tiered),
        ("convert all var declarations to const or let throughout the project"@, Shape::Tiered),
        ("generate the TypeScript types for each API endpoint response"@, Shape::Tiered),
        ("port the config files from JSON to YAML across all services"@, Shape::Tiered),
        ("add logging statements to every public handler in the controllers"@, Shape::Tiered),
        ("design the authentication architecture for a multi-tenant SSO system"@, Shape::Debate),
        ("should we use event sourcing or a CRUD model for the orders service"@, Shape::Debate),
        ("propose an approach to refactor the payments module for testability"@, Shape::Debate),
        ("decide the caching strategy and invalidation approach for the public API"@, Shape::Debate),
        ("evaluate the tradeoffs between REST and GraphQL for our gateway"@, Shape::Debate),
        ("plan the migration strategy from the monolith to services"@, Shape::Debate),
        ("rethink the data model to support soft deletes and audit history"@, Shape::Debate),
        ("choose a state management approach for the growing frontend"@, Shape::Debate),
        ("design the rate-limiting and abuse-prevention strategy for signups"@, Shape::Debate),
        ("propose the best way to structure the plugin system for extensibility"@, Shape::Debate),
    ]
}

/// The tasks with which a coordinator starts.
pub fn seed_corpus() -> (r: Vec<(&'static str, Shape)>)
    ensures
        labelled_strs(r@) == seed_corpus_spec(),
{
    let r = vec![
        ("implement a regex engine supporting groups, alternation, and character classes", Shape::Solo),
        ("write a balanced AVL tree with insert, delete, and rebalancing", Shape::Solo),
        ("implement Dijkstra shortest path with a binary heap", Shape::Solo),
        ("solve the 0/1 knapsack with dynamic programming and reconstruct the chosen items", Shape::Solo),
        ("write a recursive descent parser for arithmetic expressions with precedence", Shape::Solo),
        ("implement a LRU cache with O(1) get and put", Shape::Solo),
        ("build a topological sort that detects cycles", Shape::Solo),
        ("implement run-length encoding and decoding with exact round-trip correctness", Shape::Solo),
        ("write a function to compute edit distance between two strings", Shape::Solo),
        ("implement a thread-safe lock-free queue avoiding the ABA race", Shape::Solo),
        ("write a JSON tokenizer handling escapes and nested structures", Shape::Solo),
        ("implement a red-black tree deletion with correct fixups", Shape::Solo),
        ("add CRUD endpoints for the users, posts, and comments resources", Shape::Tiered),
        ("migrate all React components from class syntax to function components", Shape::Tiered),
        ("rename getUser to fetchUser across the entire codebase", Shape::Tiered),
        ("scaffold REST handlers and route stubs for twelve resources", Shape::Tiered),
        ("add unit tests for each utility function in the helpers module", Shape::Tiered),
        ("wire up boilerplate serializers for every model in the schema", Shape::Tiered),
        ("convert all var declarations to const or let throughout the project", Shape::Tiered),
        ("generate the TypeScript types for each API endpoint response", Shape::Tiered),
        ("port the config files from JSON to YAML across all services", Shape::Tiered),
        ("add logging statements to every public handler in the controllers", Shape::Tiered),
        ("design the authentication architecture for a multi-tenant SSO system", Shape::Debate),
        ("should we use event sourcing or a CRUD model for the orders service", Shape::Debate),
        ("propose an approach to refactor the payments module for testability", Shape::Debate),
        ("decide the caching strategy and invalidation approach for the public API", Shape::Debate),
        ("evaluate the tradeoffs between REST and GraphQL for our gateway", Shape::Debate),
        ("plan the migration strategy from the monolith to services", Shape::Debate),
        ("rethink the data model to support soft deletes and audit history", Shape::Debate),
        ("choose a state management approach for the growing frontend", Shape::Debate),
        ("design the rate-limiting and abuse-prevention strategy for signups", Shape::Debate),
        ("propose the best way to structure the plugin system for extensibility", Shape::Debate),
    ];
    proof {
        assert(labelled_strs(r@) =~= seed_corpus_spec());
    }
    r
}

} // verus!
