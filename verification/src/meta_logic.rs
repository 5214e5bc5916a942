use vstd::prelude::*;
use crate::strutil::{contains_seq, contains_substring, lower_chars, to_ascii_lower, u64_to_string};

verus! {

/// The truth values the engine can assign, across its logical
/// systems.
#[allow(non_camel_case_types)]
#[derive(Clone, Copy, Debug, PartialEq, Eq, Structural)]
pub enum TruthValue {
    TRUE,
    FALSE,
    BOTH,
    NEITHER,
    UNDEFINED,
    TRANSCENDENT,
    PARADOX,
    IMAGINARY,
}

/// A proposition under evaluation, with its bookkeeping.
#[derive(Clone, Debug)]
pub struct MetaProposition {
    pub id: String,
    pub content: String,
    pub truth_value: TruthValue,
    pub godel_number: Option<u64>,
    pub self_reference: Option<bool>,
    pub system_level: usize,
    pub dialectic_phase: Option<String>,
    pub catuskoti_position: Option<usize>,
}

/// One of the engine's logical systems.
#[derive(Debug)]
pub struct LogicalSystem {
    pub name: String,
    pub axioms: Vec<MetaProposition>,
    pub godel_sentence: Option<MetaProposition>,
    pub is_complete: bool,
    pub is_consistent: bool,
    pub expressive_power: usize,
}

/// A thesis, its antithesis and their synthesis.
#[derive(Debug)]
pub struct DialecticTriad {
    pub thesis: MetaProposition,
    pub antithesis: MetaProposition,
    pub synthesis: MetaProposition,
    pub transcendence_level: usize,
}

/// The engine's answer to a query, with the trail of systems it
/// consulted.
#[derive(Debug)]
pub struct QueryResult {
    pub answer: TruthValue,
    pub reasoning: Vec<String>,
    pub systems_consulted: Vec<String>,
    pub godel_limit: Option<String>,
    pub transcendence_method: Option<String>,
    pub golden_key_used: bool,
}

/// The registered logical systems, by name.
#[derive(Debug)]
pub struct SystemMap {
    entries: Vec<(String, LogicalSystem)>,
}

impl SystemMap {
    /// A system of this name is registered.
    pub closed spec fn spec_contains(self, name: Seq<char>) -> bool {
        exists|i: int| 0 <= i < self.entries@.len() && self.entries@[i].0@ == name
    }

    /// Registered names are pairwise distinct.
    pub closed spec fn wf(self) -> bool {
        forall|i: int, j: int|
            0 <= i < j < self.entries@.len() ==> self.entries@[i].0@ != self.entries@[j].0@
    }

    /// The system registered under a name.
    pub closed spec fn spec_get(self, name: Seq<char>) -> LogicalSystem {
        let i = choose|i: int| 0 <= i < self.entries@.len() && self.entries@[i].0@ == name;
        self.entries@[i].1
    }

    /// An empty registry.
    pub fn new() -> (r: SystemMap)
        ensures
            r.wf(),
            forall|k: Seq<char>| !r.spec_contains(k),
    {
        SystemMap { entries: Vec::new() }
    }

    /// Registers a system under a fresh name; every other name keeps
    /// its registration.
    pub fn insert(&mut self, name: &str, system: LogicalSystem)
        requires
            old(self).wf(),
            !old(self).spec_contains(name@),
        ensures
            final(self).wf(),
            final(self).spec_contains(name@),
            final(self).spec_get(name@) == system,
            forall|k: Seq<char>|
                k != name@ ==> final(self).spec_contains(k) == old(self).spec_contains(k),
            forall|k: Seq<char>|
                k != name@ && old(self).spec_contains(k) ==> final(self).spec_get(k) == old(
                    self,
                ).spec_get(k),
    {
        let ghost olds = self.entries@;
        self.entries.push((String::from_str(name), system));
        proof {
            let news = self.entries@;
            let ni = news.len() - 1;
            assert(news[ni].0@ == name@ && news[ni].1 == system);
            assert(forall|m: int| 0 <= m < olds.len() ==> news[m] == olds[m]);
            assert forall|i: int, j: int| 0 <= i < j < news.len() implies news[i].0@
                != news[j].0@ by {
                if j < ni {
                    assert(olds[i].0@ != olds[j].0@);
                } else {
                    if news[i].0@ == name@ {
                        assert(old(self).spec_contains(name@));
                    }
                }
            }
            assert(self.spec_get(name@) == system) by {
                let c = choose|c: int| 0 <= c < news.len() && news[c].0@ == name@;
                if c != ni {
                    assert(olds[c].0@ == name@);
                    assert(old(self).spec_contains(name@));
                }
            }
            assert forall|k: Seq<char>| k != name@ implies self.spec_contains(k) == old(
                self,
            ).spec_contains(k) by {
                if self.spec_contains(k) {
                    let i = choose|i: int|
                        0 <= i < self.entries@.len() && (#[trigger] self.entries@[i]).0@ == k;
                    assert(i < olds.len());
                    assert(olds[i] == self.entries@[i]);
                }
                if old(self).spec_contains(k) {
                    let i = choose|i: int| 0 <= i < olds.len() && (#[trigger] olds[i]).0@ == k;
                    assert(self.entries@[i] == olds[i]);
                }
            }
            assert forall|k: Seq<char>|
                k != name@ && old(self).spec_contains(k) implies self.spec_get(k) == old(
                self,
            ).spec_get(k) by {
                let m1 = choose|m: int| 0 <= m < news.len() && news[m].0@ == k;
                let m2 = choose|m: int| 0 <= m < olds.len() && olds[m].0@ == k;
                assert(news[m2].0@ == k);
                assert(m1 != ni);
                assert(olds[m1].0@ == k);
                if m1 != m2 {
                    assert(olds[m1].0@ != olds[m2].0@);
                }
            }
        }
    }

    /// Whether a system of this name is registered.
    pub fn contains_key(&self, name: &str) -> (r: bool)
        ensures
            r == self.spec_contains(name@),
    {
        let mut i: usize = 0;
        while i < self.entries.len()
            invariant
                i <= self.entries@.len(),
                forall|k: int| 0 <= k < i ==> self.entries@[k].0@ != name@,
            decreases self.entries@.len() - i,
        {
            if crate::strutil::str_eq(self.entries[i].0.as_str(), name) {
                return true;
            }
            i = i + 1;
        }
        false
    }
}

/// The statement reads as a self-referential paradox.
pub open spec fn paradox_spec(s: Seq<char>) -> bool {
    let l = lower_chars(s);
    ||| (contains_seq(l, "this"@) && contains_seq(l, "false"@))
    ||| (contains_seq(l, "liar"@) && contains_seq(l, "paradox"@))
    ||| (contains_seq(l, "cannot prove"@) && contains_seq(l, "this"@))
    ||| contains_seq(l, "set of all sets"@)
}

/// The question runs into an incompleteness limit.
pub open spec fn godel_limit_spec(q: Seq<char>) -> bool {
    let l = lower_chars(q);
    ||| (contains_seq(l, "prove"@) && contains_seq(l, "itself"@))
    ||| (contains_seq(l, "complete"@) && contains_seq(l, "consistent"@))
    ||| contains_seq(l, "all truths"@)
    ||| (contains_seq(l, "decide"@) && contains_seq(l, "algorithm"@))
    ||| paradox_spec(q)
}

/// What classical logic makes of a question: a paradox, an
/// undecidable negation, or plain truth.
pub open spec fn classical_spec(q: Seq<char>) -> TruthValue {
    if paradox_spec(q) {
        TruthValue::PARADOX
    } else if contains_seq(lower_chars(q), "not"@) && contains_seq(lower_chars(q), "is"@) {
        TruthValue::UNDEFINED
    } else {
        TruthValue::TRUE
    }
}

/// The tetralemma corner a question falls into.
pub open spec fn catuskoti_position_spec(q: Seq<char>) -> usize {
    let l = lower_chars(q);
    if paradox_spec(q) {
        3
    } else if contains_seq(l, "exist"@) && contains_seq(l, "not exist"@) {
        4
    } else if contains_seq(l, "and"@) && contains_seq(l, "not"@) {
        3
    } else {
        1
    }
}

/// The truth value of a tetralemma corner.
pub open spec fn catuskoti_value_spec(q: Seq<char>) -> TruthValue {
    let p = catuskoti_position_spec(q);
    if p == 3 {
        TruthValue::BOTH
    } else if p == 4 {
        TruthValue::NEITHER
    } else {
        TruthValue::TRUE
    }
}

/// The engine escalates to the imaginary register exactly when
/// classical logic gives out and an incompleteness limit appears.
pub open spec fn golden_key_spec(q: Seq<char>) -> bool {
    &&& (classical_spec(q) == TruthValue::UNDEFINED || classical_spec(q) == TruthValue::PARADOX)
    &&& godel_limit_spec(q)
}

/// The answer the full escalation chain settles on: classical logic
/// first, the tetralemma next, and an imaginary solution past an
/// incompleteness limit.
pub open spec fn query_answer_spec(q: Seq<char>) -> TruthValue {
    let c = classical_spec(q);
    if c != TruthValue::UNDEFINED && c != TruthValue::PARADOX {
        c
    } else if godel_limit_spec(q) {
        TruthValue::IMAGINARY
    } else {
        catuskoti_value_spec(q)
    }
}

/// The negation of a truth value; values outside the square negate
/// to undefined.
pub open spec fn negate_spec(v: TruthValue) -> TruthValue {
    match v {
        TruthValue::TRUE => TruthValue::FALSE,
        TruthValue::FALSE => TruthValue::TRUE,
        TruthValue::BOTH => TruthValue::NEITHER,
        TruthValue::NEITHER => TruthValue::BOTH,
        _ => TruthValue::UNDEFINED,
    }
}

/// The content is a self-referential statement.
pub open spec fn self_reference_spec(content: Seq<char>) -> bool {
    let l = lower_chars(content);
    contains_seq(l, "this"@) && (contains_seq(l, "statement"@) || contains_seq(l, "sentence"@))
}

/// One axiom has the given identifier, truth value, tetralemma
/// position and number.
pub open spec fn axiom_shape(
    p: MetaProposition,
    id: Seq<char>,
    tv: TruthValue,
    pos: Option<usize>,
    num: u64,
) -> bool {
    &&& p.id@ == id
    &&& p.truth_value == tv
    &&& p.catuskoti_position == pos
    &&& p.godel_number == Some(num)
}

/// The five standard registers hold exactly their fixed axiom sets,
/// numbered consecutively from 1 in the order they are created.
pub open spec fn default_systems_registered(m: SystemMap) -> bool {
    &&& m.spec_contains("CLASSICAL"@) && {
        let s = m.spec_get("CLASSICAL"@);
        &&& s.name@ == "Classical Logic"@
        &&& s.axioms@.len() == 3
        &&& axiom_shape(s.axioms@[0], "LAW_IDENTITY"@, TruthValue::TRUE, None, 1)
        &&& axiom_shape(s.axioms@[1], "LAW_NONCONTRADICTION"@, TruthValue::TRUE, None, 2)
        &&& axiom_shape(s.axioms@[2], "LAW_EXCLUDED_MIDDLE"@, TruthValue::TRUE, None, 3)
        &&& s.godel_sentence is None
        &&& !s.is_complete && s.is_consistent && s.expressive_power == 70
    }
    &&& m.spec_contains("PARACONSISTENT"@) && {
        let s = m.spec_get("PARACONSISTENT"@);
        &&& s.name@ == "Paraconsistent Logic"@
        &&& s.axioms@.len() == 2
        &&& axiom_shape(s.axioms@[0], "PARA_IDENTITY"@, TruthValue::TRUE, None, 4)
        &&& axiom_shape(s.axioms@[1], "PARA_TOLERANCE"@, TruthValue::TRUE, None, 5)
        &&& s.godel_sentence is None
        &&& !s.is_complete && s.is_consistent && s.expressive_power == 85
    }
    &&& m.spec_contains("CATUSKOTI"@) && {
        let s = m.spec_get("CATUSKOTI"@);
        &&& s.name@ == "Catuskoti (Tetralemma)"@
        &&& s.axioms@.len() == 4
        &&& axiom_shape(s.axioms@[0], "CATU_1"@, TruthValue::TRUE, Some(1usize), 6)
        &&& axiom_shape(s.axioms@[1], "CATU_2"@, TruthValue::FALSE, Some(2usize), 7)
        &&& axiom_shape(s.axioms@[2], "CATU_3"@, TruthValue::BOTH, Some(3usize), 8)
        &&& axiom_shape(s.axioms@[3], "CATU_4"@, TruthValue::NEITHER, Some(4usize), 9)
        &&& s.godel_sentence is None
        &&& s.is_complete && !s.is_consistent && s.expressive_power == 95
    }
    &&& m.spec_contains("META"@) && {
        let s = m.spec_get("META"@);
        &&& s.name@ == "Meta-Logical System"@
        &&& s.axioms@.len() == 1
        &&& axiom_shape(s.axioms@[0], "META_GODEL"@, TruthValue::TRUE, None, 10)
        &&& (s.godel_sentence matches Some(g) && axiom_shape(
            g,
            "G"@,
            TruthValue::UNDEFINED,
            None,
            11,
        ))
        &&& !s.is_complete && s.is_consistent && s.expressive_power == 99
    }
    &&& m.spec_contains("PATAPHYSICS"@) && {
        let s = m.spec_get("PATAPHYSICS"@);
        &&& s.name@ == "Pataphysics"@
        &&& s.axioms@.len() == 1
        &&& axiom_shape(s.axioms@[0], "PATA_IMAGINE"@, TruthValue::IMAGINARY, None, 12)
        &&& s.godel_sentence is None
        &&& s.is_complete && s.is_consistent && s.expressive_power == 100
    }
}

/// One of the five standard register names.
pub open spec fn is_default_system_name(k: Seq<char>) -> bool {
    k == "CLASSICAL"@ || k == "PARACONSISTENT"@ || k == "CATUSKOTI"@ || k == "META"@ || k
        == "PATAPHYSICS"@
}

/// Evaluates questions across classical, paraconsistent, tetralemma,
/// meta and pataphysical registers, escalating until one of them
/// yields an answer.
pub struct MetaLogicEngine {
    pub systems: SystemMap,
    pub propositions: Vec<(String, MetaProposition)>,
    pub dialectic_history: Vec<DialecticTriad>,
    pub godel_counter: u64,
}

impl MetaLogicEngine {
    /// A fresh engine: exactly the five standard registers with their
    /// fixed axiom sets, numbered consecutively from 1, no recorded
    /// propositions beyond those axioms and an empty dialectic
    /// history.
    pub fn new() -> (r: MetaLogicEngine)
        ensures
            r.systems.wf(),
            default_systems_registered(r.systems),
            forall|k: Seq<char>| r.systems.spec_contains(k) ==> is_default_system_name(k),
            r.godel_counter == 13,
            r.propositions@.len() == 12,
            r.dialectic_history@.len() == 0,
    {
        let mut engine = MetaLogicEngine {
            systems: SystemMap::new(),
            propositions: Vec::new(),
            dialectic_history: Vec::new(),
            godel_counter: 1,
        };
        engine.initialize_systems();
        engine
    }

    /// Registers the five logical systems and their axioms; called
    /// once, on an engine whose registry does not yet hold them and
    /// whose numbering is untouched.
    pub fn initialize_systems(&mut self)
        requires
            old(self).systems.wf(),
            old(self).godel_counter == 1,
            forall|k: Seq<char>|
                is_default_system_name(k) ==> !old(self).systems.spec_contains(k),
        ensures
            final(self).systems.wf(),
            default_systems_registered(final(self).systems),
            forall|k: Seq<char>|
                final(self).systems.spec_contains(k) == (old(self).systems.spec_contains(k)
                    || is_default_system_name(k)),
            final(self).godel_counter == 13,
            final(self).propositions@.len() == old(self).propositions@.len() + 12,
            final(self).dialectic_history@ == old(self).dialectic_history@,
    {
        proof {
            reveal_strlit("CLASSICAL");
            reveal_strlit("PARACONSISTENT");
            reveal_strlit("CATUSKOTI");
            reveal_strlit("META");
            reveal_strlit("PATAPHYSICS");
            assert(is_default_system_name("CLASSICAL"@));
            assert(is_default_system_name("PARACONSISTENT"@));
            assert(is_default_system_name("CATUSKOTI"@));
            assert(is_default_system_name("META"@));
            assert(is_default_system_name("PATAPHYSICS"@));
            assert(!old(self).systems.spec_contains("CLASSICAL"@));
            assert(!old(self).systems.spec_contains("PARACONSISTENT"@));
            assert(!old(self).systems.spec_contains("CATUSKOTI"@));
            assert(!old(self).systems.spec_contains("META"@));
            assert(!old(self).systems.spec_contains("PATAPHYSICS"@));
            assert("CLASSICAL"@.len() == 9);
            assert("PARACONSISTENT"@.len() == 14);
            assert("CATUSKOTI"@.len() == 9);
            assert("META"@.len() == 4);
            assert("PATAPHYSICS"@.len() == 11);
            assert("CLASSICAL"@[1] == 'L');
            assert("CATUSKOTI"@[1] == 'A');
            assert("PARACONSISTENT"@ != "CLASSICAL"@);
            assert("CATUSKOTI"@ != "CLASSICAL"@ && "CATUSKOTI"@ != "PARACONSISTENT"@);
            assert("META"@ != "CLASSICAL"@ && "META"@ != "PARACONSISTENT"@ && "META"@
                != "CATUSKOTI"@);
            assert("PATAPHYSICS"@ != "CLASSICAL"@ && "PATAPHYSICS"@ != "PARACONSISTENT"@
                && "PATAPHYSICS"@ != "CATUSKOTI"@ && "PATAPHYSICS"@ != "META"@);
        }
        let c1 = self.create_proposition("LAW_IDENTITY", "A = A", TruthValue::TRUE, None);
        let c2 = self.create_proposition(
            "LAW_NONCONTRADICTION",
            "!(A & !A)",
            TruthValue::TRUE,
            None,
        );
        let c3 = self.create_proposition("LAW_EXCLUDED_MIDDLE", "A | !A", TruthValue::TRUE, None);
        let mut classical_axioms: Vec<MetaProposition> = Vec::new();
        classical_axioms.push(c1);
        classical_axioms.push(c2);
        classical_axioms.push(c3);
        self.systems.insert(
            "CLASSICAL",
            LogicalSystem {
                name: String::from_str("Classical Logic"),
                axioms: classical_axioms,
                godel_sentence: None,
                is_complete: false,
                is_consistent: true,
                expressive_power: 70,
            },
        );
        let p1 = self.create_proposition("PARA_IDENTITY", "A = A", TruthValue::TRUE, None);
        let p2 = self.create_proposition(
            "PARA_TOLERANCE",
            "A & !A can exist without explosion",
            TruthValue::TRUE,
            None,
        );
        let mut para_axioms: Vec<MetaProposition> = Vec::new();
        para_axioms.push(p1);
        para_axioms.push(p2);
        self.systems.insert(
            "PARACONSISTENT",
            LogicalSystem {
                name: String::from_str("Paraconsistent Logic"),
                axioms: para_axioms,
                godel_sentence: None,
                is_complete: false,
                is_consistent: true,
                expressive_power: 85,
            },
        );
        let cat1 = self.create_proposition(
            "CATU_1",
            "Position 1: A is true",
            TruthValue::TRUE,
            Some(1),
        );
        let cat2 = self.create_proposition(
            "CATU_2",
            "Position 2: A is false",
            TruthValue::FALSE,
            Some(2),
        );
        let cat3 = self.create_proposition(
            "CATU_3",
            "Position 3: A is both true and false",
            TruthValue::BOTH,
            Some(3),
        );
        let cat4 = self.create_proposition(
            "CATU_4",
            "Position 4: A is neither true nor false",
            TruthValue::NEITHER,
            Some(4),
        );
        let mut catu_axioms: Vec<MetaProposition> = Vec::new();
        catu_axioms.push(cat1);
        catu_axioms.push(cat2);
        catu_axioms.push(cat3);
        catu_axioms.push(cat4);
        self.systems.insert(
            "CATUSKOTI",
            LogicalSystem {
                name: String::from_str("Catuskoti (Tetralemma)"),
                axioms: catu_axioms,
                godel_sentence: None,
                is_complete: true,
                is_consistent: false,
                expressive_power: 95,
            },
        );
        let m1 = self.create_proposition(
            "META_GODEL",
            "Any consistent system powerful enough to express arithmetic is incomplete",
            TruthValue::TRUE,
            None,
        );
        let g_sent = self.create_proposition(
            "G",
            "This statement is not provable in system S",
            TruthValue::UNDEFINED,
            None,
        );
        let mut meta_axioms: Vec<MetaProposition> = Vec::new();
        meta_axioms.push(m1);
        self.systems.insert(
            "META",
            LogicalSystem {
                name: String::from_str("Meta-Logical System"),
                axioms: meta_axioms,
                godel_sentence: Some(g_sent),
                is_complete: false,
                is_consistent: true,
                expressive_power: 99,
            },
        );
        let pata1 = self.create_proposition(
            "PATA_IMAGINE",
            "Imaginary solutions are as valid as real ones",
            TruthValue::IMAGINARY,
            None,
        );
        let mut pata_axioms: Vec<MetaProposition> = Vec::new();
        pata_axioms.push(pata1);
        self.systems.insert(
            "PATAPHYSICS",
            LogicalSystem {
                name: String::from_str("Pataphysics"),
                axioms: pata_axioms,
                godel_sentence: None,
                is_complete: true,
                is_consistent: true,
                expressive_power: 100,
            },
        );
    }

    /// Creates and records a numbered proposition; the
    /// self-reference flag is derived from the content.
    pub fn create_proposition(
        &mut self,
        id: &str,
        content: &str,
        truth_value: TruthValue,
        catuskoti_position: Option<usize>,
    ) -> (r: MetaProposition)
        ensures
            r.id@ == id@,
            r.content@ == content@,
            r.truth_value == truth_value,
            r.catuskoti_position == catuskoti_position,
            r.self_reference == Some(self_reference_spec(content@)),
            r.godel_number == Some(old(self).godel_counter),
            final(self).systems == old(self).systems,
            old(self).godel_counter < u64::MAX ==> final(self).godel_counter == old(
                self,
            ).godel_counter + 1,
            old(self).godel_counter == u64::MAX ==> final(self).godel_counter == u64::MAX,
            final(self).propositions@.len() == old(self).propositions@.len() + 1,
            final(self).dialectic_history@ == old(self).dialectic_history@,
    {
        let lower_content = to_ascii_lower(content);
        let self_ref = contains_substring(lower_content.as_str(), "this") && (contains_substring(
            lower_content.as_str(),
            "statement",
        ) || contains_substring(lower_content.as_str(), "sentence"));
        let prop = MetaProposition {
            id: String::from_str(id),
            content: String::from_str(content),
            truth_value,
            godel_number: Some(self.godel_counter),
            self_reference: Some(self_ref),
            system_level: 0,
            dialectic_phase: None,
            catuskoti_position,
        };
        if self.godel_counter < 0xffff_ffff_ffff_ffffu64 {
            self.godel_counter = self.godel_counter + 1;
        }
        let recorded = clone_prop(&prop);
        self.propositions.push((String::from_str(id), recorded));
        prop
    }

    /// A fresh identifier with the given prefix.
    fn fresh_id(&self, prefix: &str) -> (r: String) {
        let mut r = String::from_str(prefix);
        r.append(u64_to_string(self.godel_counter).as_str());
        r
    }

    /// Answers a question by escalation: classical logic, then the
    /// tetralemma, then — past an incompleteness limit — an imaginary
    /// solution; a dialectic synthesis closes every query.
    pub fn query(&mut self, question: &str) -> (r: QueryResult)
        ensures
            r.answer == query_answer_spec(question@),
            r.golden_key_used == golden_key_spec(question@),
            (r.godel_limit is Some) == r.golden_key_used,
            r.transcendence_method is Some,
            // exactly one dialectic triad is appended per query
            final(self).dialectic_history@.len() == old(self).dialectic_history@.len() + 1,
            final(self).dialectic_history@.take(
                old(self).dialectic_history@.len() as int,
            ) == old(self).dialectic_history@,
    {
        let mut reasoning: Vec<String> = Vec::new();
        let mut systems_consulted: Vec<String> = Vec::new();
        let mut golden_key_used = false;
        reasoning.push(String::from_str("attempting classical logic"));
        systems_consulted.push(String::from_str("CLASSICAL"));
        let classical_result = self.classical_evaluate(question);
        let classical_value = classical_result.truth_value;
        let current_answer: TruthValue;
        if classical_value != TruthValue::UNDEFINED && classical_value != TruthValue::PARADOX {
            current_answer = classical_value;
            reasoning.push(String::from_str("classical logic answered"));
        } else {
            reasoning.push(
                String::from_str("classical logic insufficient: paradox or undecidable"),
            );
            reasoning.push(String::from_str("applying the tetralemma"));
            systems_consulted.push(String::from_str("CATUSKOTI"));
            let catuskoti_result = self.catuskoti_evaluate(question);
            reasoning.push(String::from_str("checking for an incompleteness limit"));
            systems_consulted.push(String::from_str("META"));
            if self.is_godelian_limit(question) {
                reasoning.push(
                    String::from_str(
                        "incompleteness limit detected: not answerable in a consistent formal system",
                    ),
                );
                golden_key_used = true;
                reasoning.push(String::from_str("applying pataphysics"));
                systems_consulted.push(String::from_str("PATAPHYSICS"));
                current_answer = TruthValue::IMAGINARY;
                reasoning.push(String::from_str("imaginary solution generated"));
            } else {
                current_answer = catuskoti_result.truth_value;
            }
        }
        reasoning.push(String::from_str("performing dialectic synthesis"));
        let synthesis = self.dialectic_synthesize(question, current_answer);
        reasoning.push(synthesis.synthesis.content.clone());
        QueryResult {
            answer: current_answer,
            reasoning,
            systems_consulted,
            godel_limit: if golden_key_used {
                Some(
                    String::from_str("incompleteness limit encountered; transcended imaginarily"),
                )
            } else {
                None
            },
            transcendence_method: if golden_key_used {
                Some(String::from_str("PATAPHYSICS + GOLDEN_KEY"))
            } else {
                Some(String::from_str("CATUSKOTI"))
            },
            golden_key_used,
        }
    }

    /// Classical evaluation: a paradox, an undecidable negation, or
    /// plain truth.
    pub fn classical_evaluate(&mut self, question: &str) -> (r: MetaProposition)
        ensures
            r.truth_value == classical_spec(question@),
            final(self).systems == old(self).systems,
            final(self).dialectic_history@ == old(self).dialectic_history@,
    {
        if self.is_paradox(question) {
            let id = self.fresh_id("EVAL_");
            return self.create_proposition(id.as_str(), question, TruthValue::PARADOX, None);
        }
        let lower_q = to_ascii_lower(question);
        if contains_substring(lower_q.as_str(), "not") && contains_substring(
            lower_q.as_str(),
            "is",
        ) {
            let id = self.fresh_id("EVAL_");
            return self.create_proposition(id.as_str(), question, TruthValue::UNDEFINED, None);
        }
        let id = self.fresh_id("EVAL_");
        self.create_proposition(id.as_str(), question, TruthValue::TRUE, None)
    }

    /// Tetralemma evaluation: the corner and its truth value.
    pub fn catuskoti_evaluate(&mut self, question: &str) -> (r: MetaProposition)
        ensures
            r.truth_value == catuskoti_value_spec(question@),
            r.catuskoti_position == Some(catuskoti_position_spec(question@)),
            final(self).systems == old(self).systems,
            final(self).dialectic_history@ == old(self).dialectic_history@,
    {
        let q = to_ascii_lower(question);
        let position: usize;
        let truth_value: TruthValue;
        if self.is_paradox(question) {
            position = 3;
            truth_value = TruthValue::BOTH;
        } else if contains_substring(q.as_str(), "exist") && contains_substring(
            q.as_str(),
            "not exist",
        ) {
            position = 4;
            truth_value = TruthValue::NEITHER;
        } else if contains_substring(q.as_str(), "and") && contains_substring(q.as_str(), "not") {
            position = 3;
            truth_value = TruthValue::BOTH;
        } else {
            position = 1;
            truth_value = TruthValue::TRUE;
        }
        let id = self.fresh_id("CATU_EVAL_");
        self.create_proposition(id.as_str(), question, truth_value, Some(position))
    }

    /// Whether a statement reads as a self-referential paradox.
    pub fn is_paradox(&self, statement: &str) -> (r: bool)
        ensures
            r == paradox_spec(statement@),
    {
        let s = to_ascii_lower(statement);
        (contains_substring(s.as_str(), "this") && contains_substring(s.as_str(), "false"))
            || (contains_substring(s.as_str(), "liar") && contains_substring(
            s.as_str(),
            "paradox",
        )) || (contains_substring(s.as_str(), "cannot prove") && contains_substring(
            s.as_str(),
            "this",
        )) || contains_substring(s.as_str(), "set of all sets")
    }

    /// Whether a question runs into an incompleteness limit.
    pub fn is_godelian_limit(&self, question: &str) -> (r: bool)
        ensures
            r == godel_limit_spec(question@),
    {
        let q = to_ascii_lower(question);
        (contains_substring(q.as_str(), "prove") && contains_substring(q.as_str(), "itself")) || (
        contains_substring(q.as_str(), "complete") && contains_substring(q.as_str(), "consistent"))
            || contains_substring(q.as_str(), "all truths") || (contains_substring(
            q.as_str(),
            "decide",
        ) && contains_substring(q.as_str(), "algorithm")) || self.is_paradox(question)
    }

    /// Builds the thesis, antithesis and transcendent synthesis for
    /// an answer and records the triad.
    pub fn dialectic_synthesize(&mut self, question: &str, current_answer: TruthValue) -> (r:
        DialecticTriad)
        ensures
            r.thesis.truth_value == current_answer,
            r.antithesis.truth_value == negate_spec(current_answer),
            r.synthesis.truth_value == TruthValue::TRANSCENDENT,
            r.transcendence_level == 1,
            final(self).systems == old(self).systems,
            final(self).dialectic_history@ == old(self).dialectic_history@.push(r),
    {
        let mut thesis_content = String::from_str("The answer is ");
        thesis_content.append(truth_value_name(current_answer));
        let thesis = MetaProposition {
            id: self.fresh_id("THESIS_"),
            content: thesis_content,
            truth_value: current_answer,
            godel_number: None,
            self_reference: None,
            system_level: 0,
            dialectic_phase: Some(String::from_str("thesis")),
            catuskoti_position: None,
        };
        let antithesis_val = self.negate_value(&current_answer);
        let mut antithesis_content = String::from_str("The answer is NOT ");
        antithesis_content.append(truth_value_name(current_answer));
        let antithesis = MetaProposition {
            id: self.fresh_id("ANTITHESIS_"),
            content: antithesis_content,
            truth_value: antithesis_val,
            godel_number: None,
            self_reference: None,
            system_level: 0,
            dialectic_phase: Some(String::from_str("antithesis")),
            catuskoti_position: None,
        };
        let mut synthesis_content = String::from_str("The answer transcends ");
        synthesis_content.append(truth_value_name(current_answer));
        synthesis_content.append(" and its negation");
        let synthesis = MetaProposition {
            id: self.fresh_id("SYNTHESIS_"),
            content: synthesis_content,
            truth_value: TruthValue::TRANSCENDENT,
            godel_number: None,
            self_reference: None,
            system_level: 1,
            dialectic_phase: Some(String::from_str("synthesis")),
            catuskoti_position: None,
        };
        let recorded = DialecticTriad {
            thesis: clone_prop(&thesis),
            antithesis: clone_prop(&antithesis),
            synthesis: clone_prop(&synthesis),
            transcendence_level: 1,
        };
        self.dialectic_history.push(recorded);
        DialecticTriad { thesis, antithesis, synthesis, transcendence_level: 1 }
    }

    /// The negation of a truth value.
    pub fn negate_value(&self, value: &TruthValue) -> (r: TruthValue)
        ensures
            r == negate_spec(*value),
    {
        match value {
            TruthValue::TRUE => TruthValue::FALSE,
            TruthValue::FALSE => TruthValue::TRUE,
            TruthValue::BOTH => TruthValue::NEITHER,
            TruthValue::NEITHER => TruthValue::BOTH,
            _ => TruthValue::UNDEFINED,
        }
    }
}

/// Copies a proposition field for field.
fn clone_prop(p: &MetaProposition) -> (r: MetaProposition)
    ensures
        r == *p,
{
    MetaProposition {
        id: p.id.clone(),
        content: p.content.clone(),
        truth_value: p.truth_value,
        godel_number: p.godel_number,
        self_reference: p.self_reference,
        system_level: p.system_level,
        dialectic_phase: match &p.dialectic_phase {
            Some(s) => Some(s.clone()),
            None => None,
        },
        catuskoti_position: p.catuskoti_position,
    }
}

/// The display name of a truth value.
pub fn truth_value_name(v: TruthValue) -> (r: &'static str)
    ensures
        v is TRUE ==> r@ == "TRUE"@,
        v is FALSE ==> r@ == "FALSE"@,
        v is BOTH ==> r@ == "BOTH"@,
        v is NEITHER ==> r@ == "NEITHER"@,
        v is UNDEFINED ==> r@ == "UNDEFINED"@,
        v is TRANSCENDENT ==> r@ == "TRANSCENDENT"@,
        v is PARADOX ==> r@ == "PARADOX"@,
        v is IMAGINARY ==> r@ == "IMAGINARY"@,
{
    match v {
        TruthValue::TRUE => "TRUE",
        TruthValue::FALSE => "FALSE",
        TruthValue::BOTH => "BOTH",
        TruthValue::NEITHER => "NEITHER",
        TruthValue::UNDEFINED => "UNDEFINED",
        TruthValue::TRANSCENDENT => "TRANSCENDENT",
        TruthValue::PARADOX => "PARADOX",
        TruthValue::IMAGINARY => "IMAGINARY",
    }
}

} // verus!
