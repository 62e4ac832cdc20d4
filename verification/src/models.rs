//! What a model is for, how its weights are stored, and how a catalog
//! entry is found by free text.

use vstd::prelude::*;
use crate::text::{
    trim_end, trim_start, alnum_only, alnum_vec, chars_of, eq_str, lower_seq, lower_vec, trim, trim_vec, is_space,
    is_space_char, contains_seq, contains_chars, eq_chars, string_of,
};

verus! {

/// The job a model is chosen for; it decides how the four scores are weighted.
#[derive(Debug, Clone, Copy, PartialEq, Eq, Hash, Structural)]
pub enum UseCase {
    General,
    Coding,
    Reasoning,
    Chat,
    Multimodal,
    Embedding,
}

/// The name a use case is written as, in flags, files and JSON.
pub open spec fn use_case_name(u: UseCase) -> Seq<char> {
    match u {
        UseCase::General => "general"@,
        UseCase::Coding => "coding"@,
        UseCase::Reasoning => "reasoning"@,
        UseCase::Chat => "chat"@,
        UseCase::Multimodal => "multimodal"@,
        UseCase::Embedding => "embedding"@,
    }
}

/// The use case a normalised (trimmed, lowercased) spelling names.
pub open spec fn use_case_for_key(k: Seq<char>) -> Option<UseCase> {
    if k == "general"@ || k == "all-round"@ {
        Some(UseCase::General)
    } else if k == "coding"@ || k == "code"@ {
        Some(UseCase::Coding)
    } else if k == "reasoning"@ || k == "reason"@ {
        Some(UseCase::Reasoning)
    } else if k == "chat"@ {
        Some(UseCase::Chat)
    } else if k == "multimodal"@ || k == "vision"@ || k == "vlm"@ {
        Some(UseCase::Multimodal)
    } else if k == "embedding"@ || k == "embed"@ {
        Some(UseCase::Embedding)
    } else {
        None
    }
}

/// What `UseCase::parse` reads from a spelling: case and surrounding
/// whitespace do not matter.
pub open spec fn parse_use_case(s: Seq<char>) -> Option<UseCase> {
    use_case_for_key(lower_seq(trim(s)))
}

/// The use cases' names, in order, as one comma-separated list.
pub open spec fn use_case_hint() -> Seq<char> {
    "general, coding, reasoning, chat, multimodal, embedding"@
}

/// The use case after `u` in `UseCase::ALL`, wrapping at the end.
pub open spec fn use_case_next(u: UseCase) -> UseCase {
    match u {
        UseCase::General => UseCase::Coding,
        UseCase::Coding => UseCase::Reasoning,
        UseCase::Reasoning => UseCase::Chat,
        UseCase::Chat => UseCase::Multimodal,
        UseCase::Multimodal => UseCase::Embedding,
        UseCase::Embedding => UseCase::General,
    }
}

/// The use case `k` steps of `use_case_next` after `u`.
pub open spec fn use_case_after(u: UseCase, k: nat) -> UseCase
    decreases k,
{
    if k == 0 {
        u
    } else {
        use_case_next(use_case_after(u, (k - 1) as nat))
    }
}

/// Cycling the use case visits every one of the six before coming back to
/// where it started.
pub proof fn lemma_use_case_cycle(u: UseCase, k: nat)
    requires
        1 <= k < 6,
    ensures
        use_case_after(u, 6) == u,
        use_case_after(u, k) != u,
{
    reveal_with_fuel(use_case_after, 7);
}

impl UseCase {
    pub const ALL: [UseCase; 6] = [
        UseCase::General,
        UseCase::Coding,
        UseCase::Reasoning,
        UseCase::Chat,
        UseCase::Multimodal,
        UseCase::Embedding,
    ];

    /// The accepted names, for an error message.
    pub fn hint() -> (r: &'static str)
        ensures
            r@ == use_case_hint(),
    {
        "general, coding, reasoning, chat, multimodal, embedding"
    }

    /// The next use case in `ALL`, wrapping at the end.
    pub fn next(self) -> (r: UseCase)
        ensures
            r == use_case_next(self),
    {
        match self {
            UseCase::General => UseCase::Coding,
            UseCase::Coding => UseCase::Reasoning,
            UseCase::Reasoning => UseCase::Chat,
            UseCase::Chat => UseCase::Multimodal,
            UseCase::Multimodal => UseCase::Embedding,
            UseCase::Embedding => UseCase::General,
        }
    }

    pub fn as_str(self) -> (r: &'static str)
        ensures
            r@ == use_case_name(self),
    {
        match self {
            UseCase::General => "general",
            UseCase::Coding => "coding",
            UseCase::Reasoning => "reasoning",
            UseCase::Chat => "chat",
            UseCase::Multimodal => "multimodal",
            UseCase::Embedding => "embedding",
        }
    }

    pub fn parse(s: &str) -> (r: Option<UseCase>)
        ensures
            r == parse_use_case(s@),
    {
        let raw = chars_of(s);
        let t = trim_vec(raw.as_slice());
        let k = lower_vec(t.as_slice());
        let k = k.as_slice();
        if eq_str(k, "general") || eq_str(k, "all-round") {
            Some(UseCase::General)
        } else if eq_str(k, "coding") || eq_str(k, "code") {
            Some(UseCase::Coding)
        } else if eq_str(k, "reasoning") || eq_str(k, "reason") {
            Some(UseCase::Reasoning)
        } else if eq_str(k, "chat") {
            Some(UseCase::Chat)
        } else if eq_str(k, "multimodal") || eq_str(k, "vision") || eq_str(k, "vlm") {
            Some(UseCase::Multimodal)
        } else if eq_str(k, "embedding") || eq_str(k, "embed") {
            Some(UseCase::Embedding)
        } else {
            None
        }
    }
}

/// Every use case reads back from the name it is written as.
pub proof fn lemma_use_case_name_round_trip(u: UseCase)
    ensures
        parse_use_case(use_case_name(u)) == Some(u),
{
    reveal_strlit("general");
    reveal_strlit("all-round");
    reveal_strlit("coding");
    reveal_strlit("code");
    reveal_strlit("reasoning");
    reveal_strlit("reason");
    reveal_strlit("chat");
    reveal_strlit("multimodal");
    reveal_strlit("vision");
    reveal_strlit("vlm");
    reveal_strlit("embedding");
    reveal_strlit("embed");
    let n = use_case_name(u);
    assert(trim_start(n) == n);
    assert(trim_end(n) == n);
    assert(lower_seq(n) =~= n);
}

// ---------------------------------------------------------------------------
// Quantization
// ---------------------------------------------------------------------------

/// A llama.cpp weight format, from highest quality to most compressed.
#[derive(Debug, Clone, Copy, PartialEq, Eq, Structural)]
pub enum Quant {
    Q8_0,
    Q6K,
    Q5KM,
    Q4KM,
    Q3KM,
    Q2K,
}

/// How a quantization is written in output.
pub open spec fn quant_label(q: Quant) -> Seq<char> {
    match q {
        Quant::Q8_0 => "Q8_0"@,
        Quant::Q6K => "Q6_K"@,
        Quant::Q5KM => "Q5_K_M"@,
        Quant::Q4KM => "Q4_K_M"@,
        Quant::Q3KM => "Q3_K_M"@,
        Quant::Q2K => "Q2_K"@,
    }
}

/// The quantization a key of lowercase letters and digits names.
pub open spec fn quant_for_key(k: Seq<char>) -> Option<Quant> {
    if k == "q80"@ || k == "q8"@ {
        Some(Quant::Q8_0)
    } else if k == "q6k"@ || k == "q6"@ {
        Some(Quant::Q6K)
    } else if k == "q5km"@ || k == "q5"@ || k == "q5k"@ {
        Some(Quant::Q5KM)
    } else if k == "q4km"@ || k == "q4"@ || k == "q4k"@ {
        Some(Quant::Q4KM)
    } else if k == "q3km"@ || k == "q3"@ || k == "q3k"@ {
        Some(Quant::Q3KM)
    } else if k == "q2k"@ || k == "q2"@ {
        Some(Quant::Q2K)
    } else {
        None
    }
}

/// What `Quant::parse` reads: punctuation and case are ignored, so
/// `Q4_K_M`, `q4-k-m` and `q4km` are one spelling.
pub open spec fn parse_quant(s: Seq<char>) -> Option<Quant> {
    quant_for_key(lower_seq(alnum_only(s)))
}

impl Quant {
    /// Ordered from highest quality to most compressed.
    pub const HIERARCHY: [Quant; 6] = [
        Quant::Q8_0,
        Quant::Q6K,
        Quant::Q5KM,
        Quant::Q4KM,
        Quant::Q3KM,
        Quant::Q2K,
    ];

    pub fn label(self) -> (r: &'static str)
        ensures
            r@ == quant_label(self),
    {
        match self {
            Quant::Q8_0 => "Q8_0",
            Quant::Q6K => "Q6_K",
            Quant::Q5KM => "Q5_K_M",
            Quant::Q4KM => "Q4_K_M",
            Quant::Q3KM => "Q3_K_M",
            Quant::Q2K => "Q2_K",
        }
    }

    /// The accepted spellings, for an error message.
    pub fn hint() -> (r: String)
        ensures
            r@ == quant_hint(),
    {
        let mut r = crate::text::owned("Q8_0");
        r.append(", Q6_K, Q5_K_M, Q4_K_M, Q3_K_M, Q2_K");
        r
    }

    pub fn parse(s: &str) -> (r: Option<Quant>)
        ensures
            r == parse_quant(s@),
    {
        let raw = chars_of(s);
        let a = alnum_vec(raw.as_slice());
        let k = lower_vec(a.as_slice());
        let k = k.as_slice();
        if eq_str(k, "q80") || eq_str(k, "q8") {
            Some(Quant::Q8_0)
        } else if eq_str(k, "q6k") || eq_str(k, "q6") {
            Some(Quant::Q6K)
        } else if eq_str(k, "q5km") || eq_str(k, "q5") || eq_str(k, "q5k") {
            Some(Quant::Q5KM)
        } else if eq_str(k, "q4km") || eq_str(k, "q4") || eq_str(k, "q4k") {
            Some(Quant::Q4KM)
        } else if eq_str(k, "q3km") || eq_str(k, "q3") || eq_str(k, "q3k") {
            Some(Quant::Q3KM)
        } else if eq_str(k, "q2k") || eq_str(k, "q2") {
            Some(Quant::Q2K)
        } else {
            None
        }
    }
}

/// Every quantization reads back from its own label.
pub proof fn lemma_quant_label_round_trip(q: Quant)
    ensures
        parse_quant(quant_label(q)) == Some(q),
{
    reveal_strlit("Q8_0");
    reveal_strlit("Q6_K");
    reveal_strlit("Q5_K_M");
    reveal_strlit("Q4_K_M");
    reveal_strlit("Q3_K_M");
    reveal_strlit("Q2_K");
    reveal_strlit("q80");
    reveal_strlit("q8");
    reveal_strlit("q6k");
    reveal_strlit("q6");
    reveal_strlit("q5km");
    reveal_strlit("q5");
    reveal_strlit("q5k");
    reveal_strlit("q4km");
    reveal_strlit("q4");
    reveal_strlit("q4k");
    reveal_strlit("q3km");
    reveal_strlit("q3");
    reveal_strlit("q3k");
    reveal_strlit("q2k");
    reveal_strlit("q2");
    reveal_with_fuel(Seq::filter, 8);
    let l = quant_label(q);
    let a = alnum_only(l);
    match q {
        Quant::Q8_0 => {
            assert(a =~= seq!['Q', '8', '0']);
        },
        Quant::Q6K => {
            assert(a =~= seq!['Q', '6', 'K']);
        },
        Quant::Q5KM => {
            assert(a =~= seq!['Q', '5', 'K', 'M']);
        },
        Quant::Q4KM => {
            assert(a =~= seq!['Q', '4', 'K', 'M']);
        },
        Quant::Q3KM => {
            assert(a =~= seq!['Q', '3', 'K', 'M']);
        },
        Quant::Q2K => {
            assert(a =~= seq!['Q', '2', 'K']);
        },
    }
    assert(lower_seq(a) =~= quant_key(q));
    assert("q80"@ =~= seq!['q', '8', '0']);
    assert("q8"@ =~= seq!['q', '8']);
    assert("q6k"@ =~= seq!['q', '6', 'k']);
    assert("q6"@ =~= seq!['q', '6']);
    assert("q5km"@ =~= seq!['q', '5', 'k', 'm']);
    assert("q5"@ =~= seq!['q', '5']);
    assert("q5k"@ =~= seq!['q', '5', 'k']);
    assert("q4km"@ =~= seq!['q', '4', 'k', 'm']);
    assert("q4"@ =~= seq!['q', '4']);
    assert("q4k"@ =~= seq!['q', '4', 'k']);
    assert("q3km"@ =~= seq!['q', '3', 'k', 'm']);
    assert("q3"@ =~= seq!['q', '3']);
    assert("q3k"@ =~= seq!['q', '3', 'k']);
    assert("q2k"@ =~= seq!['q', '2', 'k']);
    assert("q2"@ =~= seq!['q', '2']);
    assert(quant_for_key(quant_key(q)) == Some(q));
}

/// The quantizations' labels, in order, as one comma-separated list.
pub open spec fn quant_hint() -> Seq<char> {
    "Q8_0"@ + ", Q6_K, Q5_K_M, Q4_K_M, Q3_K_M, Q2_K"@
}

/// The lowercase key each quantization's label reduces to.
pub open spec fn quant_key(q: Quant) -> Seq<char> {
    match q {
        Quant::Q8_0 => "q80"@,
        Quant::Q6K => "q6k"@,
        Quant::Q5KM => "q5km"@,
        Quant::Q4KM => "q4km"@,
        Quant::Q3KM => "q3km"@,
        Quant::Q2K => "q2k"@,
    }
}


// ---------------------------------------------------------------------------
// Search
// ---------------------------------------------------------------------------

/// The text a catalog entry is searched by.
#[derive(Debug, Clone)]
pub struct Searchable {
    pub id: String,
    pub name: String,
    pub provider: String,
    pub use_case: UseCase,
    /// The parameter count in billions, rounded to a whole number, with a
    /// `b` after it: `8b`.
    pub params: String,
    pub capabilities: Vec<String>,
    /// The model's Ollama tag, when it has one.
    pub tag: Option<String>,
}

/// Where the run of non-space characters starting at `i` ends.
pub open spec fn word_end(s: Seq<char>, i: int) -> int
    decreases s.len() - i,
{
    if 0 <= i < s.len() && !is_space(s[i]) {
        word_end(s, i + 1)
    } else {
        i
    }
}

/// True when a whitespace-separated word of `s` starts at `i`.
pub open spec fn word_start(s: Seq<char>, i: int) -> bool {
    0 <= i < s.len() && !is_space(s[i]) && (i == 0 || is_space(s[i - 1]))
}

/// True when one search term occurs in one of the entry's texts: name, id
/// and publisher and capabilities with case ignored, the use case's name,
/// or the parameter size.
pub open spec fn term_found(e: Searchable, t: Seq<char>) -> bool {
    ||| contains_seq(lower_seq(e.name@), t)
    ||| contains_seq(lower_seq(e.id@), t)
    ||| contains_seq(lower_seq(e.provider@), t)
    ||| contains_seq(use_case_name(e.use_case), t)
    ||| contains_seq(e.params@, t)
    ||| exists|c: int| 0 <= c < e.capabilities.len() && contains_seq(lower_seq(#[trigger] e.capabilities@[c]@), t)
}

/// True when every whitespace-separated term of the query, trimmed and
/// lowercased, is found in the entry. A blank query matches everything.
pub open spec fn search_matches(e: Searchable, query: Seq<char>) -> bool {
    let q = lower_seq(trim(query));
    forall|i: int| #![trigger word_start(q, i)] word_start(q, i) ==> term_found(e, q.subrange(i, word_end(q, i)))
}

proof fn lemma_word_end(s: Seq<char>, i: int, j: int)
    requires
        0 <= i <= j <= s.len(),
        forall|m: int| i <= m < j ==> !is_space(#[trigger] s[m]),
        j == s.len() || is_space(s[j]),
    ensures
        word_end(s, i) == j,
    decreases j - i,
{
    if i < j {
        lemma_word_end(s, i + 1, j);
    }
}

impl Searchable {
    fn term_found(&self, name: &[char], id: &[char], provider: &[char], t: &[char]) -> (r: bool)
        requires
            name@ == lower_seq(self.name@),
            id@ == lower_seq(self.id@),
            provider@ == lower_seq(self.provider@),
        ensures
            r == term_found(*self, t@),
    {
        if contains_chars(name, t) || contains_chars(id, t) || contains_chars(provider, t) {
            return true;
        }
        let u = chars_of(self.use_case.as_str());
        if contains_chars(u.as_slice(), t) {
            return true;
        }
        let p = chars_of(self.params.as_str());
        if contains_chars(p.as_slice(), t) {
            return true;
        }
        let mut c: usize = 0;
        while c < self.capabilities.len()
            invariant
                c <= self.capabilities.len(),
                forall|k: int| 0 <= k < c ==> !contains_seq(lower_seq(#[trigger] self.capabilities@[k]@), t@),
            decreases self.capabilities.len() - c,
        {
            let cap = lower_vec(chars_of(self.capabilities[c].as_str()).as_slice());
            if contains_chars(cap.as_slice(), t) {
                return true;
            }
            c = c + 1;
        }
        false
    }

    /// True when every term of `query` is found in this entry.
    pub fn matches(&self, query: &str) -> (r: bool)
        ensures
            r == search_matches(*self, query@),
    {
        let raw = chars_of(query);
        let t = trim_vec(raw.as_slice());
        let q = lower_vec(t.as_slice());
        let ghost qs = q@;
        let name = lower_vec(chars_of(self.name.as_str()).as_slice());
        let id = lower_vec(chars_of(self.id.as_str()).as_slice());
        let provider = lower_vec(chars_of(self.provider.as_str()).as_slice());
        let mut i: usize = 0;
        while i < q.len()
            invariant
                qs == q@,
                qs == lower_seq(trim(query@)),
                name@ == lower_seq(self.name@),
                id@ == lower_seq(self.id@),
                provider@ == lower_seq(self.provider@),
                i <= q.len(),
                (i < q.len() && !is_space(qs[i as int])) ==> (i == 0 || is_space(qs[i - 1])),
                forall|k: int| #![trigger word_start(qs, k)] 0 <= k < i && word_start(qs, k) ==> term_found(
                    *self,
                    qs.subrange(k, word_end(qs, k)),
                ),
            decreases q.len() - i,
        {
            if is_space_char(q[i]) {
                i = i + 1;
            } else {
                let mut j: usize = i;
                while j < q.len() && !is_space_char(q[j])
                    invariant
                        qs == q@,
                        i <= j <= q.len(),
                        forall|m: int| i <= m < j ==> !is_space(#[trigger] qs[m]),
                    decreases q.len() - j,
                {
                    j = j + 1;
                }
                proof {
                    lemma_word_end(qs, i as int, j as int);
                }
                let term = vstd::slice::slice_subrange(q.as_slice(), i, j);
                if !self.term_found(name.as_slice(), id.as_slice(), provider.as_slice(), term) {
                    assert(word_start(qs, i as int));
                    return false;
                }
                proof {
                    assert forall|k: int| #![trigger word_start(qs, k)] 0 <= k < j && word_start(qs, k) implies term_found(
                        *self,
                        qs.subrange(k, word_end(qs, k)),
                    ) by {
                        if i < k < j {
                            assert(!is_space(qs[k - 1]));
                        }
                    }
                }
                i = j;
            }
        }
        true
    }
}
/// True when the entry's id, name or tag is `q`, case aside.
pub open spec fn named_exactly(e: Searchable, q: Seq<char>) -> bool {
    ||| lower_seq(e.id@) == q
    ||| lower_seq(e.name@) == q
    ||| (e.tag matches Some(t) && lower_seq(t@) == q)
}

/// The entry a lookup settles on: the first whose id, name or tag is the
/// query (trimmed, case aside), else the first the query matches as a search.
pub open spec fn lookup(entries: Seq<Searchable>, query: Seq<char>, r: Option<usize>) -> bool {
    let q = lower_seq(trim(query));
    if exists|i: int| 0 <= i < entries.len() && named_exactly(#[trigger] entries[i], q) {
        r matches Some(k) && k < entries.len() && named_exactly(entries[k as int], q) && forall|j: int|
            0 <= j < k ==> !named_exactly(#[trigger] entries[j], q)
    } else if exists|i: int| 0 <= i < entries.len() && search_matches(#[trigger] entries[i], q) {
        r matches Some(k) && k < entries.len() && search_matches(entries[k as int], q) && forall|j: int|
            0 <= j < k ==> !search_matches(#[trigger] entries[j], q)
    } else {
        r is None
    }
}

fn lower_of(s: &str) -> (r: Vec<char>)
    ensures
        r@ == lower_seq(s@),
{
    lower_vec(chars_of(s).as_slice())
}

impl Searchable {
    fn named(&self, q: &[char]) -> (r: bool)
        ensures
            r == named_exactly(*self, q@),
    {
        if eq_chars(lower_of(self.id.as_str()).as_slice(), q) || eq_chars(lower_of(self.name.as_str()).as_slice(), q) {
            return true;
        }
        match &self.tag {
            Some(t) => eq_chars(lower_of(t.as_str()).as_slice(), q),
            None => false,
        }
    }
}

/// Which catalog entry a name or free text refers to.
pub fn find(entries: &[Searchable], query: &str) -> (r: Option<usize>)
    ensures
        lookup(entries@, query@, r),
{
    let q = lower_vec(trim_vec(chars_of(query).as_slice()).as_slice());
    let mut i: usize = 0;
    while i < entries.len()
        invariant
            i <= entries.len(),
            q@ == lower_seq(trim(query@)),
            forall|j: int| 0 <= j < i ==> !named_exactly(#[trigger] entries@[j], q@),
        decreases entries.len() - i,
    {
        if entries[i].named(q.as_slice()) {
            return Some(i);
        }
        i = i + 1;
    }
    let text = string_of(q.as_slice());
    let mut k: usize = 0;
    while k < entries.len()
        invariant
            k <= entries.len(),
            q@ == lower_seq(trim(query@)),
            text@ == q@,
            forall|j: int| 0 <= j < entries.len() ==> !named_exactly(#[trigger] entries@[j], q@),
            forall|j: int| 0 <= j < k ==> !search_matches(#[trigger] entries@[j], q@),
        decreases entries.len() - k,
    {
        if entries[k].matches(text.as_str()) {
            return Some(k);
        }
        k = k + 1;
    }
    None
}

// ---------------------------------------------------------------------------
// Merging the user's own models into the catalog
// ---------------------------------------------------------------------------

/// A catalog entry with the id it is known by.
#[derive(Debug)]
pub struct Keyed<T> {
    pub id: String,
    pub value: T,
}

/// Position of the first entry with this id.
pub open spec fn position_of<T>(s: Seq<Keyed<T>>, id: Seq<char>) -> Option<nat>
    decreases s.len(),
{
    if s.len() == 0 {
        None
    } else if s[0].id@ == id {
        Some(0)
    } else {
        match position_of(s.drop_first(), id) {
            Some(k) => Some(k + 1),
            None => None,
        }
    }
}

/// One entry added: it replaces the entry with its id, or goes at the end.
pub open spec fn put<T>(s: Seq<Keyed<T>>, e: Keyed<T>) -> Seq<Keyed<T>> {
    match position_of(s, e.id@) {
        Some(i) => s.update(i as int, e),
        None => s.push(e),
    }
}

/// `extra` added to `s` in order.
pub open spec fn merged<T>(s: Seq<Keyed<T>>, extra: Seq<Keyed<T>>) -> Seq<Keyed<T>>
    decreases extra.len(),
{
    if extra.len() == 0 {
        s
    } else {
        put(merged(s, extra.drop_last()), extra.last())
    }
}

/// No two entries share an id.
pub open spec fn ids_distinct<T>(s: Seq<Keyed<T>>) -> bool {
    forall|i: int, j: int| 0 <= i < j < s.len() ==> (#[trigger] s[i]).id@ != (#[trigger] s[j]).id@
}

proof fn lemma_position_of<T>(s: Seq<Keyed<T>>, id: Seq<char>)
    ensures
        position_of(s, id) matches Some(i) ==> i < s.len() && s[i as int].id@ == id && forall|j: int|
            0 <= j < i ==> (#[trigger] s[j]).id@ != id,
        position_of(s, id) is None ==> forall|j: int| 0 <= j < s.len() ==> (#[trigger] s[j]).id@ != id,
    decreases s.len(),
{
    if s.len() > 0 {
        lemma_position_of(s.drop_first(), id);
        assert forall|j: int| 1 <= j < s.len() implies s[j] == s.drop_first()[j - 1] by {}
    }
}

fn position<T>(entries: &Vec<Keyed<T>>, id: &str) -> (r: Option<usize>)
    ensures
        match r {
            Some(i) => position_of(entries@, id@) == Some(i as nat),
            None => position_of(entries@, id@) is None,
        },
{
    proof {
        lemma_position_of(entries@, id@);
    }
    let mut i: usize = 0;
    while i < entries.len()
        invariant
            i <= entries.len(),
            forall|j: int| 0 <= j < i ==> (#[trigger] entries@[j]).id@ != id@,
        decreases entries.len() - i,
    {
        if crate::text::str_eq(entries[i].id.as_str(), id) {
            proof {
                lemma_position_of(entries@, id@);
                assert(entries@[i as int].id@ == id@);
                if let Some(p) = position_of(entries@, id@) {
                    if p < i {
                        assert(entries@[p as int].id@ != id@);
                    }
                }
            }
            return Some(i);
        }
        i = i + 1;
    }
    None
}

/// Add `extra` to the catalog in order: an entry whose id is already there
/// replaces it, any other goes at the end.
pub fn merge<T>(entries: &mut Vec<Keyed<T>>, extra: Vec<Keyed<T>>)
    ensures
        final(entries)@ == merged(old(entries)@, extra@),
{
    let ghost start = entries@;
    let ghost all = extra@;
    let n = extra.len();
    let mut rest = extra;
    let mut k: usize = 0;
    assert(all.take(0) =~= seq![]);
    assert(all.skip(0) =~= all);
    while rest.len() > 0
        invariant
            k <= all.len(),
            all.len() == n,
            rest@ == all.skip(k as int),
            entries@ == merged(start, all.take(k as int)),
        decreases rest.len(),
    {
        let e = rest.remove(0);
        assert(all.take(k + 1).drop_last() =~= all.take(k as int));
        assert(all.take(k + 1).last() == e);
        assert(rest@ =~= all.skip(k + 1));
        match position(entries, e.id.as_str()) {
            Some(i) => {
                proof {
                    lemma_position_of(entries@, e.id@);
                }
                entries.set(i, e);
            },
            None => {
                entries.push(e);
            },
        }
        k = k + 1;
    }
    assert(all.take(k as int) =~= all);
}

/// An entry added with an id the catalog has replaces that entry, in its
/// place; one with a new id goes at the end. Nothing else moves.
pub proof fn lemma_a_known_id_replaces_its_entry<T>(s: Seq<Keyed<T>>, e: Keyed<T>)
    ensures
        (exists|i: int| 0 <= i < s.len() && (#[trigger] s[i]).id@ == e.id@) ==> {
            let i = position_of(s, e.id@).unwrap() as int;
            &&& merged(s, seq![e]).len() == s.len()
            &&& s[i].id@ == e.id@
            &&& merged(s, seq![e])[i] == e
            &&& forall|j: int| 0 <= j < s.len() && j != i ==> merged(s, seq![e])[j] == s[j]
        },
        (forall|i: int| 0 <= i < s.len() ==> (#[trigger] s[i]).id@ != e.id@) ==> merged(s, seq![e]) == s.push(e),
{
    lemma_position_of(s, e.id@);
    assert(seq![e].drop_last() =~= Seq::<Keyed<T>>::empty());
    assert(merged(s, seq![e].drop_last()) == s);
}

/// Merging never gives two entries the same id, when the catalog had none.
pub proof fn lemma_merge_keeps_ids_distinct<T>(s: Seq<Keyed<T>>, extra: Seq<Keyed<T>>)
    requires
        ids_distinct(s),
    ensures
        ids_distinct(merged(s, extra)),
    decreases extra.len(),
{
    if extra.len() > 0 {
        lemma_merge_keeps_ids_distinct(s, extra.drop_last());
        let m = merged(s, extra.drop_last());
        let e = extra.last();
        lemma_position_of(m, e.id@);
    }
}

/// Looking an entry up by its own id always finds an entry: that one, or an
/// earlier one named the same, case aside.
pub proof fn lemma_an_id_finds_its_entry(entries: Seq<Searchable>, k: int, r: Option<usize>)
    requires
        0 <= k < entries.len(),
        trim(entries[k].id@) == entries[k].id@,
        lookup(entries, entries[k].id@, r),
    ensures
        r matches Some(j) && j <= k && named_exactly(entries[j as int], lower_seq(entries[k].id@)),
{
    let q = lower_seq(trim(entries[k].id@));
    assert(named_exactly(entries[k], q));
}

/// A blank query matches every entry.
pub proof fn lemma_blank_query_matches_everything(e: Searchable, query: Seq<char>)
    requires
        trim(query).len() == 0,
    ensures
        search_matches(e, query),
{
}

/// A query of one lowercase word is found in an entry as soon as it occurs
/// in the entry's name, id or publisher (case aside), its use case, its
/// parameter size or one of its capabilities.
pub proof fn lemma_one_word_queries_search_every_field(e: Searchable, q: Seq<char>)
    requires
        q.len() > 0,
        forall|k: int| 0 <= k < q.len() ==> !is_space(#[trigger] q[k]),
        lower_seq(q) == q,
    ensures
        contains_seq(lower_seq(e.name@), q) ==> search_matches(e, q),
        contains_seq(lower_seq(e.id@), q) ==> search_matches(e, q),
        contains_seq(lower_seq(e.provider@), q) ==> search_matches(e, q),
        contains_seq(use_case_name(e.use_case), q) ==> search_matches(e, q),
        contains_seq(e.params@, q) ==> search_matches(e, q),
        forall|c: int|
            0 <= c < e.capabilities.len() && contains_seq(lower_seq(#[trigger] e.capabilities@[c]@), q)
                ==> search_matches(e, q),
{
    assert(trim_start(q) == q);
    assert(trim_end(q) == q);
    assert(trim(q) == q);
    lemma_word_end(q, 0, q.len() as int);
    assert(q.subrange(0, q.len() as int) =~= q);
    assert forall|i: int| #![trigger word_start(q, i)] word_start(q, i) implies i == 0 by {
        if i > 0 {
            assert(!is_space(q[i - 1]));
        }
    }
    assert forall|c: int|
        0 <= c < e.capabilities.len() && contains_seq(lower_seq(#[trigger] e.capabilities@[c]@), q)
            implies search_matches(e, q) by {
        assert(term_found(e, q));
    }
}

/// A one-word query found in an entry's id finds that entry in a catalog
/// of one.
pub proof fn lemma_an_id_fragment_finds_its_entry(e: Searchable, q: Seq<char>, r: Option<usize>)
    requires
        q.len() > 0,
        forall|k: int| 0 <= k < q.len() ==> !is_space(#[trigger] q[k]),
        lower_seq(q) == q,
        contains_seq(lower_seq(e.id@), q),
        lookup(seq![e], q, r),
    ensures
        r == Some(0usize),
{
    lemma_one_word_queries_search_every_field(e, q);
    assert(trim_start(q) == q);
    assert(trim_end(q) == q);
    assert(lower_seq(trim(q)) == q);
    assert(search_matches(seq![e][0], q));
}

} // verus!
