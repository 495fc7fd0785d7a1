//! The nine-node wheel of domains: domains, composition aspects,
//! relationships, the K-12 understanding axis and the wheel graph.
use vstd::prelude::*;

use crate::text::{ascii_lower_seq, ascii_upper_seq, chars_of, eq_str, push_str, string_of, to_ascii_lower};

verus! {

/// The 9 Vedic grahas — primary domain nodes on the wheel.
#[derive(Debug, Clone, Copy, PartialEq, Eq, Hash, Structural)]
pub enum Domain {
    Surya,
    Chandra,
    Mangala,
    Budha,
    Brihaspati,
    Shukra,
    Shani,
    Rahu,
    Ketu,
}

/// The domain at arc position `i` (`0 <= i < 9`), in wheel order.
pub open spec fn domain_at(i: int) -> Domain {
    if i == 0 {
        Domain::Surya
    } else if i == 1 {
        Domain::Chandra
    } else if i == 2 {
        Domain::Mangala
    } else if i == 3 {
        Domain::Budha
    } else if i == 4 {
        Domain::Brihaspati
    } else if i == 5 {
        Domain::Shukra
    } else if i == 6 {
        Domain::Shani
    } else if i == 7 {
        Domain::Rahu
    } else {
        Domain::Ketu
    }
}

/// All nine domains in wheel order.
pub open spec fn all_domains() -> Seq<Domain> {
    seq![
        Domain::Surya,
        Domain::Chandra,
        Domain::Mangala,
        Domain::Budha,
        Domain::Brihaspati,
        Domain::Shukra,
        Domain::Shani,
        Domain::Rahu,
        Domain::Ketu,
    ]
}

impl Domain {
    /// Arc position on the wheel (0–8).
    pub open spec fn idx(self) -> int {
        match self {
            Domain::Surya => 0,
            Domain::Chandra => 1,
            Domain::Mangala => 2,
            Domain::Budha => 3,
            Domain::Brihaspati => 4,
            Domain::Shukra => 5,
            Domain::Shani => 6,
            Domain::Rahu => 7,
            Domain::Ketu => 8,
        }
    }

    /// The domain `delta` steps along the wheel (wrapping).
    pub open spec fn shifted(self, delta: int) -> Domain {
        domain_at((self.idx() + delta) % 9)
    }

    /// Arc index on the wheel (0–8).
    pub fn index(self) -> (r: usize)
        ensures
            r == self.idx(),
            r < 9,
    {
        match self {
            Domain::Surya => 0,
            Domain::Chandra => 1,
            Domain::Mangala => 2,
            Domain::Budha => 3,
            Domain::Brihaspati => 4,
            Domain::Shukra => 5,
            Domain::Shani => 6,
            Domain::Rahu => 7,
            Domain::Ketu => 8,
        }
    }

    /// Create a domain from its arc index (0–8).
    pub fn from_index(index: usize) -> (r: Option<Self>)
        ensures
            r == (if index < 9 {
                Some(domain_at(index as int))
            } else {
                None
            }),
    {
        match index {
            0 => Some(Domain::Surya),
            1 => Some(Domain::Chandra),
            2 => Some(Domain::Mangala),
            3 => Some(Domain::Budha),
            4 => Some(Domain::Brihaspati),
            5 => Some(Domain::Shukra),
            6 => Some(Domain::Shani),
            7 => Some(Domain::Rahu),
            8 => Some(Domain::Ketu),
            _ => None,
        }
    }

    /// Offset by `delta` steps on the 9-node wheel (wrapping).
    pub fn offset(self, delta: isize) -> (r: Self)
        requires
            self.idx() + delta <= isize::MAX,
        ensures
            r == self.shifted(delta as int),
    {
        let i = self.index();
        let m: usize = if delta >= 0 {
            (delta as usize) % 9
        } else {
            let k = (-(delta + 1)) as usize;
            8 - k % 9
        };
        let j = (i + m) % 9;
        proof {
            let d = delta as int;
            if d >= 0 {
                assert((self.idx() + d) % 9 == (self.idx() + d % 9) % 9) by (nonlinear_arith)
                    requires
                        d >= 0,
                        0 <= self.idx() < 9,
                ;
            } else {
                let k = -(d + 1);
                assert((self.idx() + d) % 9 == (self.idx() + (8 - k % 9)) % 9) by (nonlinear_arith)
                    requires
                        k == -(d + 1),
                        k >= 0,
                        0 <= self.idx() < 9,
                ;
            }
        }
        match Self::from_index(j) {
            Some(d) => d,
            None => Domain::Surya,
        }
    }

    /// Opposite graha (index + 4) % 9 — 160° opposition.
    pub fn opposite(self) -> (r: Self)
        ensures
            r == self.shifted(4),
    {
        self.offset(4)
    }

    /// Adjacent grahas (±1 step).
    pub fn adjacent(self) -> (r: [Self; 2])
        ensures
            r@ == seq![self.shifted(1), self.shifted(-1)],
    {
        [self.offset(1), self.offset(-1)]
    }

    /// Trine grahas (index + 3) % 9 and (index + 6) % 9.
    pub fn trines(self) -> (r: [Self; 2])
        ensures
            r@ == seq![self.shifted(3), self.shifted(6)],
    {
        [self.offset(3), self.offset(6)]
    }

    /// All 9 domains in wheel order.
    pub fn all() -> (r: [Self; 9])
        ensures
            r@ == all_domains(),
    {
        [
            Domain::Surya,
            Domain::Chandra,
            Domain::Mangala,
            Domain::Budha,
            Domain::Brihaspati,
            Domain::Shukra,
            Domain::Shani,
            Domain::Rahu,
            Domain::Ketu,
        ]
    }

    /// Alias for `name_lower()`.
    pub fn full_name_lower(self) -> (r: &'static str)
        ensures
            r@ == self.name_lower_text(),
    {
        self.name_lower()
    }

    /// Astrological symbol.
    pub open spec fn symbol_text(self) -> Seq<char> {
        match self {
            Domain::Surya => "☉"@,
            Domain::Chandra => "☽"@,
            Domain::Mangala => "♂"@,
            Domain::Budha => "☿"@,
            Domain::Brihaspati => "♃"@,
            Domain::Shukra => "♀"@,
            Domain::Shani => "♄"@,
            Domain::Rahu => "☊"@,
            Domain::Ketu => "☋"@,
        }
    }

    /// Astrological symbol.
    pub fn symbol(self) -> (r: &'static str)
        ensures
            r@ == self.symbol_text(),
    {
        match self {
            Domain::Surya => "☉",
            Domain::Chandra => "☽",
            Domain::Mangala => "♂",
            Domain::Budha => "☿",
            Domain::Brihaspati => "♃",
            Domain::Shukra => "♀",
            Domain::Shani => "♄",
            Domain::Rahu => "☊",
            Domain::Ketu => "☋",
        }
    }

    /// Sanskrit name.
    pub open spec fn name_text(self) -> Seq<char> {
        match self {
            Domain::Surya => "Surya"@,
            Domain::Chandra => "Chandra"@,
            Domain::Mangala => "Mangala"@,
            Domain::Budha => "Budha"@,
            Domain::Brihaspati => "Brihaspati"@,
            Domain::Shukra => "Shukra"@,
            Domain::Shani => "Shani"@,
            Domain::Rahu => "Rahu"@,
            Domain::Ketu => "Ketu"@,
        }
    }

    /// Sanskrit name.
    pub fn name(self) -> (r: &'static str)
        ensures
            r@ == self.name_text(),
    {
        match self {
            Domain::Surya => "Surya",
            Domain::Chandra => "Chandra",
            Domain::Mangala => "Mangala",
            Domain::Budha => "Budha",
            Domain::Brihaspati => "Brihaspati",
            Domain::Shukra => "Shukra",
            Domain::Shani => "Shani",
            Domain::Rahu => "Rahu",
            Domain::Ketu => "Ketu",
        }
    }

    /// English name.
    pub open spec fn full_name_text(self) -> Seq<char> {
        match self {
            Domain::Surya => "Sun"@,
            Domain::Chandra => "Moon"@,
            Domain::Mangala => "Mars"@,
            Domain::Budha => "Mercury"@,
            Domain::Brihaspati => "Jupiter"@,
            Domain::Shukra => "Venus"@,
            Domain::Shani => "Saturn"@,
            Domain::Rahu => "North Node"@,
            Domain::Ketu => "South Node"@,
        }
    }

    /// English name.
    pub fn full_name(self) -> (r: &'static str)
        ensures
            r@ == self.full_name_text(),
    {
        match self {
            Domain::Surya => "Sun",
            Domain::Chandra => "Moon",
            Domain::Mangala => "Mars",
            Domain::Budha => "Mercury",
            Domain::Brihaspati => "Jupiter",
            Domain::Shukra => "Venus",
            Domain::Shani => "Saturn",
            Domain::Rahu => "North Node",
            Domain::Ketu => "South Node",
        }
    }

    /// Knowledge domain archetype.
    pub open spec fn archetype_text(self) -> Seq<char> {
        match self {
            Domain::Surya => "Self & Leadership"@,
            Domain::Chandra => "Mind & Emotion"@,
            Domain::Mangala => "Action & Engineering"@,
            Domain::Budha => "Logic & Communication"@,
            Domain::Brihaspati => "Wisdom & Law"@,
            Domain::Shukra => "Arts & Value"@,
            Domain::Shani => "Structure & Time"@,
            Domain::Rahu => "Innovation & Tech"@,
            Domain::Ketu => "Spirituality & Science"@,
        }
    }

    /// Knowledge domain archetype.
    pub fn archetype(self) -> (r: &'static str)
        ensures
            r@ == self.archetype_text(),
    {
        match self {
            Domain::Surya => "Self & Leadership",
            Domain::Chandra => "Mind & Emotion",
            Domain::Mangala => "Action & Engineering",
            Domain::Budha => "Logic & Communication",
            Domain::Brihaspati => "Wisdom & Law",
            Domain::Shukra => "Arts & Value",
            Domain::Shani => "Structure & Time",
            Domain::Rahu => "Innovation & Tech",
            Domain::Ketu => "Spirituality & Science",
        }
    }

    /// Greek letter name.
    pub open spec fn greek_name_text(self) -> Seq<char> {
        match self {
            Domain::Surya => "Alpha (α)"@,
            Domain::Chandra => "Beta (β)"@,
            Domain::Mangala => "Gamma (γ)"@,
            Domain::Budha => "Delta (δ)"@,
            Domain::Brihaspati => "Epsilon (ε)"@,
            Domain::Shukra => "Zeta (ζ)"@,
            Domain::Shani => "Eta (η)"@,
            Domain::Rahu => "Theta (θ)"@,
            Domain::Ketu => "Iota (ι)"@,
        }
    }

    /// Greek letter name.
    pub fn greek_name(self) -> (r: &'static str)
        ensures
            r@ == self.greek_name_text(),
    {
        match self {
            Domain::Surya => "Alpha (α)",
            Domain::Chandra => "Beta (β)",
            Domain::Mangala => "Gamma (γ)",
            Domain::Budha => "Delta (δ)",
            Domain::Brihaspati => "Epsilon (ε)",
            Domain::Shukra => "Zeta (ζ)",
            Domain::Shani => "Eta (η)",
            Domain::Rahu => "Theta (θ)",
            Domain::Ketu => "Iota (ι)",
        }
    }

    /// Greek symbol.
    pub open spec fn greek_symbol_text(self) -> Seq<char> {
        match self {
            Domain::Surya => "α"@,
            Domain::Chandra => "β"@,
            Domain::Mangala => "γ"@,
            Domain::Budha => "δ"@,
            Domain::Brihaspati => "ε"@,
            Domain::Shukra => "ζ"@,
            Domain::Shani => "η"@,
            Domain::Rahu => "θ"@,
            Domain::Ketu => "ι"@,
        }
    }

    /// Greek symbol.
    pub fn greek_symbol(self) -> (r: &'static str)
        ensures
            r@ == self.greek_symbol_text(),
    {
        match self {
            Domain::Surya => "α",
            Domain::Chandra => "β",
            Domain::Mangala => "γ",
            Domain::Budha => "δ",
            Domain::Brihaspati => "ε",
            Domain::Shukra => "ζ",
            Domain::Shani => "η",
            Domain::Rahu => "θ",
            Domain::Ketu => "ι",
        }
    }

    /// Lowercased name.
    pub open spec fn name_lower_text(self) -> Seq<char> {
        match self {
            Domain::Surya => "surya"@,
            Domain::Chandra => "chandra"@,
            Domain::Mangala => "mangala"@,
            Domain::Budha => "budha"@,
            Domain::Brihaspati => "brihaspati"@,
            Domain::Shukra => "shukra"@,
            Domain::Shani => "shani"@,
            Domain::Rahu => "rahu"@,
            Domain::Ketu => "ketu"@,
        }
    }

    /// Lowercased name.
    pub fn name_lower(self) -> (r: &'static str)
        ensures
            r@ == self.name_lower_text(),
    {
        match self {
            Domain::Surya => "surya",
            Domain::Chandra => "chandra",
            Domain::Mangala => "mangala",
            Domain::Budha => "budha",
            Domain::Brihaspati => "brihaspati",
            Domain::Shukra => "shukra",
            Domain::Shani => "shani",
            Domain::Rahu => "rahu",
            Domain::Ketu => "ketu",
        }
    }

    /// Western/English name for this graha.
    pub open spec fn english_name_text(self) -> Seq<char> {
        match self {
            Domain::Surya => "sun"@,
            Domain::Chandra => "moon"@,
            Domain::Mangala => "mars"@,
            Domain::Budha => "mercury"@,
            Domain::Brihaspati => "jupiter"@,
            Domain::Shukra => "venus"@,
            Domain::Shani => "saturn"@,
            Domain::Rahu => "rahu"@,
            Domain::Ketu => "ketu"@,
        }
    }

    /// Western/English name for this graha.
    pub fn english_name(self) -> (r: &'static str)
        ensures
            r@ == self.english_name_text(),
    {
        match self {
            Domain::Surya => "sun",
            Domain::Chandra => "moon",
            Domain::Mangala => "mars",
            Domain::Budha => "mercury",
            Domain::Brihaspati => "jupiter",
            Domain::Shukra => "venus",
            Domain::Shani => "saturn",
            Domain::Rahu => "rahu",
            Domain::Ketu => "ketu",
        }
    }

    /// Name in Devanagari script.
    pub open spec fn sanskrit_text(self) -> Seq<char> {
        match self {
            Domain::Surya => "सूर्य"@,
            Domain::Chandra => "चन्द्र"@,
            Domain::Mangala => "मङ्गल"@,
            Domain::Budha => "बुध"@,
            Domain::Brihaspati => "बृहस्पति"@,
            Domain::Shukra => "शुक्र"@,
            Domain::Shani => "शनि"@,
            Domain::Rahu => "राहु"@,
            Domain::Ketu => "केतु"@,
        }
    }

    /// Name in Devanagari script.
    pub fn sanskrit(self) -> (r: &'static str)
        ensures
            r@ == self.sanskrit_text(),
    {
        match self {
            Domain::Surya => "सूर्य",
            Domain::Chandra => "चन्द्र",
            Domain::Mangala => "मङ्गल",
            Domain::Budha => "बुध",
            Domain::Brihaspati => "बृहस्पति",
            Domain::Shukra => "शुक्र",
            Domain::Shani => "शनि",
            Domain::Rahu => "राहु",
            Domain::Ketu => "केतु",
        }
    }

    /// Element affinity (Vedic tattva name).
    pub open spec fn element_affinity_text(self) -> Seq<char> {
        match self {
            Domain::Surya => "Fire"@,
            Domain::Chandra => "Water"@,
            Domain::Mangala => "Fire"@,
            Domain::Budha => "Earth"@,
            Domain::Brihaspati => "Ether"@,
            Domain::Shukra => "Water"@,
            Domain::Shani => "Air"@,
            Domain::Rahu => "Air"@,
            Domain::Ketu => "Ether"@,
        }
    }

    /// Element affinity (Vedic tattva name).
    pub fn element_affinity(self) -> (r: &'static str)
        ensures
            r@ == self.element_affinity_text(),
    {
        match self {
            Domain::Surya => "Fire",
            Domain::Chandra => "Water",
            Domain::Mangala => "Fire",
            Domain::Budha => "Earth",
            Domain::Brihaspati => "Ether",
            Domain::Shukra => "Water",
            Domain::Shani => "Air",
            Domain::Rahu => "Air",
            Domain::Ketu => "Ether",
        }
    }
}


/// `Domain::parse` on the characters of the input.
pub open spec fn parse_domain(s: Seq<char>) -> Option<Domain> {
    let l = ascii_lower_seq(s);
    if l == "surya"@ || l == "☉"@ || l == "sun"@ || l == "alpha"@ || l == "α"@ {
        Some(Domain::Surya)
    } else if l == "chandra"@ || l == "☽"@ || l == "moon"@ || l == "beta"@ || l == "β"@ {
        Some(Domain::Chandra)
    } else if l == "mangala"@ || l == "♂"@ || l == "mars"@ || l == "gamma"@ || l == "γ"@ {
        Some(Domain::Mangala)
    } else if l == "budha"@ || l == "☿"@ || l == "mercury"@ || l == "delta"@ || l == "δ"@ {
        Some(Domain::Budha)
    } else if l == "brihaspati"@ || l == "♃"@ || l == "jupiter"@ || l == "epsilon"@ || l == "ε"@ {
        Some(Domain::Brihaspati)
    } else if l == "shukra"@ || l == "♀"@ || l == "venus"@ || l == "zeta"@ || l == "ζ"@ {
        Some(Domain::Shukra)
    } else if l == "shani"@ || l == "♄"@ || l == "saturn"@ || l == "eta"@ || l == "η"@ {
        Some(Domain::Shani)
    } else if l == "rahu"@ || l == "☊"@ || l == "north node"@ || l == "theta"@ || l == "θ"@ {
        Some(Domain::Rahu)
    } else if l == "ketu"@ || l == "☋"@ || l == "south node"@ || l == "iota"@ || l == "ι"@ {
        Some(Domain::Ketu)
    } else {
        None
    }
}

fn eq_any5(l: &Vec<char>, a: &str, b: &str, c: &str, d: &str, e: &str) -> (r: bool)
    ensures
        r == (l@ == a@ || l@ == b@ || l@ == c@ || l@ == d@ || l@ == e@),
{
    eq_str(l, a) || eq_str(l, b) || eq_str(l, c) || eq_str(l, d) || eq_str(l, e)
}

impl Domain {
    /// Parse a domain from a string (name, symbol, or alias), ignoring ASCII case.
    pub fn parse(s: &str) -> (r: Option<Self>)
        ensures
            r == parse_domain(s@),
    {
        let cs = chars_of(s);
        let l = to_ascii_lower(&cs);
        if eq_any5(&l, "surya", "☉", "sun", "alpha", "α") {
            Some(Domain::Surya)
        } else if eq_any5(&l, "chandra", "☽", "moon", "beta", "β") {
            Some(Domain::Chandra)
        } else if eq_any5(&l, "mangala", "♂", "mars", "gamma", "γ") {
            Some(Domain::Mangala)
        } else if eq_any5(&l, "budha", "☿", "mercury", "delta", "δ") {
            Some(Domain::Budha)
        } else if eq_any5(&l, "brihaspati", "♃", "jupiter", "epsilon", "ε") {
            Some(Domain::Brihaspati)
        } else if eq_any5(&l, "shukra", "♀", "venus", "zeta", "ζ") {
            Some(Domain::Shukra)
        } else if eq_any5(&l, "shani", "♄", "saturn", "eta", "η") {
            Some(Domain::Shani)
        } else if eq_any5(&l, "rahu", "☊", "north node", "theta", "θ") {
            Some(Domain::Rahu)
        } else if eq_any5(&l, "ketu", "☋", "south node", "iota", "ι") {
            Some(Domain::Ketu)
        } else {
            None
        }
    }

    /// What the domain displays as: its symbol, a space, and its Sanskrit name.
    pub open spec fn display_text(self) -> Seq<char> {
        self.symbol_text() + " "@ + self.name_text()
    }

    /// The display form `"{symbol} {name}"`.
    pub fn to_string(self) -> (r: String)
        ensures
            r@ == self.display_text(),
    {
        let mut v: Vec<char> = Vec::new();
        push_str(&mut v, self.symbol());
        push_str(&mut v, " ");
        push_str(&mut v, self.name());
        string_of(&v)
    }
}


/// A node on the wheel, combining a domain with metadata.
#[derive(Debug, Clone)]
pub struct Node {
    pub domain: Domain,
    pub symbol: &'static str,
    pub name: &'static str,
    pub description: &'static str,
    pub index: usize,
    pub opposite: Domain,
    pub trines: [Domain; 2],
}

impl Node {
    /// The node holds the metadata of `d` at position `i`, with `name` as its name.
    pub open spec fn describes(self, d: Domain, i: int, name: Seq<char>) -> bool {
        &&& self.domain == d
        &&& self.symbol@ == d.symbol_text()
        &&& self.name@ == name
        &&& self.description@ == d.archetype_text()
        &&& self.index == i
        &&& self.opposite == d.shifted(4)
        &&& self.trines@ == seq![d.shifted(3), d.shifted(6)]
    }
}

/// All 9 nodes with metadata, named by their Sanskrit names.
pub fn compute_all_nodes() -> (r: Vec<Node>)
    ensures
        r.len() == 9,
        forall|i: int|
            0 <= i < 9 ==> #[trigger] r@[i].describes(domain_at(i), i, domain_at(i).name_text()),
{
    let all = Domain::all();
    let mut r: Vec<Node> = Vec::new();
    let mut i: usize = 0;
    while i < 9
        invariant
            i <= 9,
            all@ == all_domains(),
            r.len() == i,
            forall|k: int|
                0 <= k < i ==> #[trigger] r@[k].describes(domain_at(k), k, domain_at(k).name_text()),
        decreases 9 - i,
    {
        let domain = all[i];
        assert(domain == domain_at(i as int));
        r.push(
            Node {
                domain,
                symbol: domain.symbol(),
                name: domain.name(),
                description: domain.archetype(),
                index: i,
                opposite: domain.opposite(),
                trines: domain.trines(),
            },
        );
        i = i + 1;
    }
    r
}

/// Errors from wheel operations.
#[derive(Debug)]
pub enum WheelError {
    UnknownDomain(String),
    NoPath(Domain, Domain),
    CycleDetected,
    MaxDepthExceeded(usize),
}

/// A position on the wheel: a domain and an optional formula reference.
#[derive(Debug, Clone)]
pub struct Position {
    pub domain: Domain,
    pub formula_id: Option<String>,
}

/// The structural composition relationship between two domains on the
/// fixed 9-node wheel.
#[derive(Debug, Clone, Copy, PartialEq, Eq, Hash, Structural)]
pub enum CompositionAspect {
    Aligned,
    Adjacent,
    Harmonic,
    Tense,
    Antipodal,
}

/// Minimum number of steps between arc positions `i` and `j` on the wheel.
pub open spec fn wheel_steps(i: int, j: int) -> int {
    let diff = if i >= j {
        i - j
    } else {
        j - i
    };
    if diff < 9 - diff {
        diff
    } else {
        9 - diff
    }
}

/// The aspect of two positions `k` steps apart.
pub open spec fn aspect_for_steps(k: int) -> CompositionAspect {
    if k == 0 {
        CompositionAspect::Aligned
    } else if k == 1 {
        CompositionAspect::Adjacent
    } else if k == 2 {
        CompositionAspect::Tense
    } else if k == 3 {
        CompositionAspect::Harmonic
    } else if k == 4 {
        CompositionAspect::Antipodal
    } else {
        CompositionAspect::Aligned
    }
}

/// The aspect between two domains.
pub open spec fn aspect_of(a: Domain, b: Domain) -> CompositionAspect {
    aspect_for_steps(wheel_steps(a.idx(), b.idx()))
}

/// A wheel edge joins domains 0, 1, 3 or 4 steps apart.
pub open spec fn is_edge(a: Domain, b: Domain) -> bool {
    let k = wheel_steps(a.idx(), b.idx());
    k == 0 || k == 1 || k == 3 || k == 4
}

impl CompositionAspect {
    /// Steps spanned by this aspect.
    pub open spec fn steps(self) -> int {
        match self {
            CompositionAspect::Aligned => 0,
            CompositionAspect::Adjacent => 1,
            CompositionAspect::Harmonic => 3,
            CompositionAspect::Tense => 2,
            CompositionAspect::Antipodal => 4,
        }
    }

    /// Whether formulas compose directly across this relationship.
    pub open spec fn direct(self) -> bool {
        self is Aligned || self is Adjacent || self is Harmonic
    }

    /// Whether this aspect represents tension or inversion.
    pub open spec fn tension(self) -> bool {
        self is Tense || self is Antipodal
    }

    /// Determine the structural composition relationship between two domains.
    pub fn between(a: Domain, b: Domain) -> (r: CompositionAspect)
        ensures
            r == aspect_of(a, b),
    {
        let i = a.index();
        let j = b.index();
        let diff = if i >= j {
            i - j
        } else {
            j - i
        };
        let min_diff = if diff < 9 - diff {
            diff
        } else {
            9 - diff
        };
        match min_diff {
            0 => CompositionAspect::Aligned,
            1 => CompositionAspect::Adjacent,
            2 => CompositionAspect::Tense,
            3 => CompositionAspect::Harmonic,
            4 => CompositionAspect::Antipodal,
            _ => CompositionAspect::Aligned,
        }
    }

    /// The structural arc distance (minimum steps on the 9-node wheel).
    pub fn arc_distance(self) -> (r: usize)
        ensures
            r == self.steps(),
    {
        match self {
            CompositionAspect::Aligned => 0,
            CompositionAspect::Adjacent => 1,
            CompositionAspect::Harmonic => 3,
            CompositionAspect::Tense => 2,
            CompositionAspect::Antipodal => 4,
        }
    }

    /// Whether formulas compose directly across this relationship.
    pub fn is_direct(self) -> (r: bool)
        ensures
            r == self.direct(),
    {
        matches!(self, CompositionAspect::Aligned | CompositionAspect::Adjacent | CompositionAspect::Harmonic)
    }

    /// Whether this aspect represents tension or inversion.
    pub fn is_tension(self) -> (r: bool)
        ensures
            r == self.tension(),
    {
        matches!(self, CompositionAspect::Tense | CompositionAspect::Antipodal)
    }

    /// What the aspect displays as.
    pub open spec fn display_text(self) -> Seq<char> {
        match self {
            CompositionAspect::Aligned => "Aligned (same domain)"@,
            CompositionAspect::Adjacent => "Adjacent (1 step, structural)"@,
            CompositionAspect::Harmonic => "Harmonic (3 steps, structural)"@,
            CompositionAspect::Tense => "Tense (2 steps, structural)"@,
            CompositionAspect::Antipodal => "Antipodal (4 steps, structural — NOT a real 180° opposition)"@,
        }
    }

    /// The display form of the aspect.
    pub fn to_string(self) -> (r: String)
        ensures
            r@ == self.display_text(),
    {
        let s = match self {
            CompositionAspect::Aligned => "Aligned (same domain)",
            CompositionAspect::Adjacent => "Adjacent (1 step, structural)",
            CompositionAspect::Harmonic => "Harmonic (3 steps, structural)",
            CompositionAspect::Tense => "Tense (2 steps, structural)",
            CompositionAspect::Antipodal => "Antipodal (4 steps, structural — NOT a real 180° opposition)",
        };
        let v = chars_of(s);
        string_of(&v)
    }
}

/// The direction of traversal along the edge.
#[derive(Debug, Clone, Copy, PartialEq, Eq, Structural)]
pub enum Direction {
    Forward,
    Reverse,
}

/// A typed relationship between two domains.
#[derive(Debug, Clone, Copy, PartialEq, Eq, Structural)]
pub struct Relationship {
    pub from: Domain,
    pub to: Domain,
    pub aspect: CompositionAspect,
    pub distance: usize,
    pub direction: Direction,
}

/// The relationship `Relationship::new(from, to)` builds.
pub open spec fn relationship_of(from: Domain, to: Domain) -> Relationship {
    let aspect = aspect_of(from, to);
    Relationship {
        from,
        to,
        aspect,
        distance: aspect.steps() as usize,
        direction: if (to.idx() - from.idx()) % 9 <= 4 {
            Direction::Forward
        } else {
            Direction::Reverse
        },
    }
}

impl Relationship {
    /// Create a relationship between two domains.
    pub fn new(from: Domain, to: Domain) -> (r: Self)
        ensures
            r == relationship_of(from, to),
    {
        let aspect = CompositionAspect::between(from, to);
        let distance = aspect.arc_distance();
        let (from_idx, to_idx) = (from.index(), to.index());
        let forward = if to_idx >= from_idx {
            to_idx - from_idx <= 4
        } else {
            to_idx + 9 - from_idx <= 4
        };
        let direction = if forward {
            Direction::Forward
        } else {
            Direction::Reverse
        };
        Relationship { from, to, aspect, distance, direction }
    }

    /// The relationship with its ends swapped and its direction flipped.
    pub open spec fn reversed(self) -> Relationship {
        Relationship {
            from: self.to,
            to: self.from,
            aspect: self.aspect,
            distance: self.distance,
            direction: if self.direction is Forward {
                Direction::Reverse
            } else {
                Direction::Forward
            },
        }
    }

    /// Reverse the direction of this relationship.
    pub fn reverse(&self) -> (r: Self)
        ensures
            r == self.reversed(),
    {
        Relationship {
            from: self.to,
            to: self.from,
            aspect: self.aspect,
            distance: self.distance,
            direction: match self.direction {
                Direction::Forward => Direction::Reverse,
                Direction::Reverse => Direction::Forward,
            },
        }
    }
}


/// Arc positions and domains correspond one to one: every domain sits at its
/// own index, and `from_index` of that index gives the domain back.
pub proof fn law_index_round_trip(d: Domain)
    ensures
        0 <= d.idx() < 9,
        domain_at(d.idx()) == d,
{
}

/// The index of the domain at position `i` is `i`.
pub proof fn law_position_round_trip(i: int)
    requires
        0 <= i < 9,
    ensures
        domain_at(i).idx() == i,
{
}

/// Offsets compose: stepping `a` and then `b` places along the wheel is
/// stepping `a + b` places; nine steps come back to the start.
pub proof fn law_offsets_compose(d: Domain, a: int, b: int)
    ensures
        d.shifted(a).shifted(b) == d.shifted(a + b),
        d.shifted(9) == d,
        d.shifted(0) == d,
{
    let i = d.idx();
    let m = (i + a) % 9;
    assert(0 <= m < 9);
    assert(domain_at(m).idx() == m);
    assert((m + b) % 9 == (i + a + b) % 9) by {
        vstd::arithmetic::div_mod::lemma_add_mod_noop(i + a, b, 9);
        vstd::arithmetic::div_mod::lemma_mod_twice(b, 9);
        vstd::arithmetic::div_mod::lemma_add_mod_noop(m, b, 9);
    }
    assert((i + 9) % 9 == i) by {
        vstd::arithmetic::div_mod::lemma_mod_add_multiples_vanish(i, 9);
    }
    assert((i + 0) % 9 == i);
}

/// The composition aspect does not depend on the order of the two domains,
/// a domain is aligned with itself, and edges are symmetric.
pub proof fn law_aspect_symmetric(a: Domain, b: Domain)
    ensures
        aspect_of(a, b) == aspect_of(b, a),
        aspect_of(a, a) == CompositionAspect::Aligned,
        is_edge(a, b) == is_edge(b, a),
        0 <= wheel_steps(a.idx(), b.idx()) <= 4,
        (wheel_steps(a.idx(), b.idx()) == 0) == (a == b),
{
}

/// Reversing the relationship from `a` to `b` gives the relationship from
/// `b` to `a` (for distinct domains), and reversing twice changes nothing.
pub proof fn law_reverse_relationship(a: Domain, b: Domain, r: Relationship)
    ensures
        a != b ==> relationship_of(a, b).reversed() == relationship_of(b, a),
        r.reversed().reversed() == r,
{
    if a != b {
        let i = a.idx();
        let j = b.idx();
        assert((j - i) % 9 + (i - j) % 9 == 9) by {
            assert(i != j);
            if i < j {
                assert((j - i) % 9 == j - i);
                assert((i - j) % 9 == i - j + 9) by {
                    vstd::arithmetic::div_mod::lemma_mod_add_multiples_vanish(i - j, 9);
                }
            } else {
                assert((i - j) % 9 == i - j);
                assert((j - i) % 9 == j - i + 9) by {
                    vstd::arithmetic::div_mod::lemma_mod_add_multiples_vanish(j - i, 9);
                }
            }
        }
    }
}



/// Each of `d`'s names parses back to `d`.
pub open spec fn names_parse_to(d: Domain) -> bool {
    &&& parse_domain(d.name_text()) == Some(d)
    &&& parse_domain(d.name_lower_text()) == Some(d)
    &&& parse_domain(ascii_upper_seq(d.name_text())) == Some(d)
    &&& parse_domain(d.full_name_text()) == Some(d)
    &&& parse_domain(d.english_name_text()) == Some(d)
    &&& parse_domain(d.symbol_text()) == Some(d)
    &&& parse_domain(d.greek_symbol_text()) == Some(d)
}

proof fn lemma_parse_names_surya()
    ensures
        names_parse_to(Domain::Surya),
{
    reveal_strlit("SURYA");
    reveal_strlit("Sun");
    reveal_strlit("Surya");
    reveal_strlit("alpha");
    reveal_strlit("sun");
    reveal_strlit("surya");
    reveal_strlit("α");
    reveal_strlit("☉");
    assert(ascii_lower_seq("Surya"@) =~= "surya"@);
    assert(ascii_lower_seq("SURYA"@) =~= "surya"@);
    assert(ascii_upper_seq("Surya"@) =~= "SURYA"@);
    assert(ascii_lower_seq("surya"@) =~= "surya"@);
    assert(ascii_lower_seq("Sun"@) =~= "sun"@);
    assert(ascii_lower_seq("sun"@) =~= "sun"@);
    assert(ascii_lower_seq("☉"@) =~= "☉"@);
    assert(ascii_lower_seq("α"@) =~= "α"@);

}

proof fn lemma_parse_names_chandra()
    ensures
        names_parse_to(Domain::Chandra),
{
    reveal_strlit("CHANDRA");
    reveal_strlit("Chandra");
    reveal_strlit("Moon");
    reveal_strlit("alpha");
    reveal_strlit("beta");
    reveal_strlit("chandra");
    reveal_strlit("moon");
    reveal_strlit("sun");
    reveal_strlit("surya");
    reveal_strlit("α");
    reveal_strlit("β");
    reveal_strlit("☉");
    reveal_strlit("☽");
    assert(ascii_lower_seq("Chandra"@) =~= "chandra"@);
    assert(ascii_lower_seq("CHANDRA"@) =~= "chandra"@);
    assert(ascii_upper_seq("Chandra"@) =~= "CHANDRA"@);
    assert(ascii_lower_seq("chandra"@) =~= "chandra"@);
    assert(ascii_lower_seq("Moon"@) =~= "moon"@);
    assert(ascii_lower_seq("moon"@) =~= "moon"@);
    assert(ascii_lower_seq("☽"@) =~= "☽"@);
    assert(ascii_lower_seq("β"@) =~= "β"@);
    assert("β"@ != "☉"@) by {
        assert("β"@[0] != "☉"@[0]);
    }
    assert("β"@ != "α"@) by {
        assert("β"@[0] != "α"@[0]);
    }
    assert("☽"@ != "☉"@) by {
        assert("☽"@[0] != "☉"@[0]);
    }
    assert("☽"@ != "α"@) by {
        assert("☽"@[0] != "α"@[0]);
    }
}

proof fn lemma_parse_names_mangala()
    ensures
        names_parse_to(Domain::Mangala),
{
    reveal_strlit("MANGALA");
    reveal_strlit("Mangala");
    reveal_strlit("Mars");
    reveal_strlit("alpha");
    reveal_strlit("beta");
    reveal_strlit("chandra");
    reveal_strlit("gamma");
    reveal_strlit("mangala");
    reveal_strlit("mars");
    reveal_strlit("moon");
    reveal_strlit("sun");
    reveal_strlit("surya");
    reveal_strlit("α");
    reveal_strlit("β");
    reveal_strlit("γ");
    reveal_strlit("☉");
    reveal_strlit("☽");
    reveal_strlit("♂");
    assert(ascii_lower_seq("Mangala"@) =~= "mangala"@);
    assert(ascii_lower_seq("MANGALA"@) =~= "mangala"@);
    assert(ascii_upper_seq("Mangala"@) =~= "MANGALA"@);
    assert(ascii_lower_seq("mangala"@) =~= "mangala"@);
    assert(ascii_lower_seq("Mars"@) =~= "mars"@);
    assert(ascii_lower_seq("mars"@) =~= "mars"@);
    assert(ascii_lower_seq("♂"@) =~= "♂"@);
    assert(ascii_lower_seq("γ"@) =~= "γ"@);
    assert("mangala"@ != "chandra"@) by {
        assert("mangala"@[0] != "chandra"@[0]);
    }
    assert("mars"@ != "moon"@) by {
        assert("mars"@[1] != "moon"@[1]);
    }
    assert("mars"@ != "beta"@) by {
        assert("mars"@[0] != "beta"@[0]);
    }
    assert("γ"@ != "☉"@) by {
        assert("γ"@[0] != "☉"@[0]);
    }
    assert("γ"@ != "α"@) by {
        assert("γ"@[0] != "α"@[0]);
    }
    assert("γ"@ != "☽"@) by {
        assert("γ"@[0] != "☽"@[0]);
    }
    assert("γ"@ != "β"@) by {
        assert("γ"@[0] != "β"@[0]);
    }
    assert("♂"@ != "☉"@) by {
        assert("♂"@[0] != "☉"@[0]);
    }
    assert("♂"@ != "α"@) by {
        assert("♂"@[0] != "α"@[0]);
    }
    assert("♂"@ != "☽"@) by {
        assert("♂"@[0] != "☽"@[0]);
    }
    assert("♂"@ != "β"@) by {
        assert("♂"@[0] != "β"@[0]);
    }
}

proof fn lemma_parse_names_budha()
    ensures
        names_parse_to(Domain::Budha),
{
    reveal_strlit("BUDHA");
    reveal_strlit("Budha");
    reveal_strlit("Mercury");
    reveal_strlit("alpha");
    reveal_strlit("beta");
    reveal_strlit("budha");
    reveal_strlit("chandra");
    reveal_strlit("delta");
    reveal_strlit("gamma");
    reveal_strlit("mangala");
    reveal_strlit("mars");
    reveal_strlit("mercury");
    reveal_strlit("moon");
    reveal_strlit("sun");
    reveal_strlit("surya");
    reveal_strlit("α");
    reveal_strlit("β");
    reveal_strlit("γ");
    reveal_strlit("δ");
    reveal_strlit("☉");
    reveal_strlit("☽");
    reveal_strlit("☿");
    reveal_strlit("♂");
    assert(ascii_lower_seq("Budha"@) =~= "budha"@);
    assert(ascii_lower_seq("BUDHA"@) =~= "budha"@);
    assert(ascii_upper_seq("Budha"@) =~= "BUDHA"@);
    assert(ascii_lower_seq("budha"@) =~= "budha"@);
    assert(ascii_lower_seq("Mercury"@) =~= "mercury"@);
    assert(ascii_lower_seq("mercury"@) =~= "mercury"@);
    assert(ascii_lower_seq("☿"@) =~= "☿"@);
    assert(ascii_lower_seq("δ"@) =~= "δ"@);
    assert("budha"@ != "surya"@) by {
        assert("budha"@[0] != "surya"@[0]);
    }
    assert("budha"@ != "alpha"@) by {
        assert("budha"@[0] != "alpha"@[0]);
    }
    assert("budha"@ != "gamma"@) by {
        assert("budha"@[0] != "gamma"@[0]);
    }
    assert("mercury"@ != "chandra"@) by {
        assert("mercury"@[0] != "chandra"@[0]);
    }
    assert("mercury"@ != "mangala"@) by {
        assert("mercury"@[1] != "mangala"@[1]);
    }
    assert("δ"@ != "☉"@) by {
        assert("δ"@[0] != "☉"@[0]);
    }
    assert("δ"@ != "α"@) by {
        assert("δ"@[0] != "α"@[0]);
    }
    assert("δ"@ != "☽"@) by {
        assert("δ"@[0] != "☽"@[0]);
    }
    assert("δ"@ != "β"@) by {
        assert("δ"@[0] != "β"@[0]);
    }
    assert("δ"@ != "♂"@) by {
        assert("δ"@[0] != "♂"@[0]);
    }
    assert("δ"@ != "γ"@) by {
        assert("δ"@[0] != "γ"@[0]);
    }
    assert("☿"@ != "☉"@) by {
        assert("☿"@[0] != "☉"@[0]);
    }
    assert("☿"@ != "α"@) by {
        assert("☿"@[0] != "α"@[0]);
    }
    assert("☿"@ != "☽"@) by {
        assert("☿"@[0] != "☽"@[0]);
    }
    assert("☿"@ != "β"@) by {
        assert("☿"@[0] != "β"@[0]);
    }
    assert("☿"@ != "♂"@) by {
        assert("☿"@[0] != "♂"@[0]);
    }
    assert("☿"@ != "γ"@) by {
        assert("☿"@[0] != "γ"@[0]);
    }
}

proof fn lemma_parse_names_brihaspati()
    ensures
        names_parse_to(Domain::Brihaspati),
{
    reveal_strlit("BRIHASPATI");
    reveal_strlit("Brihaspati");
    reveal_strlit("Jupiter");
    reveal_strlit("alpha");
    reveal_strlit("beta");
    reveal_strlit("brihaspati");
    reveal_strlit("budha");
    reveal_strlit("chandra");
    reveal_strlit("delta");
    reveal_strlit("epsilon");
    reveal_strlit("gamma");
    reveal_strlit("jupiter");
    reveal_strlit("mangala");
    reveal_strlit("mars");
    reveal_strlit("mercury");
    reveal_strlit("moon");
    reveal_strlit("sun");
    reveal_strlit("surya");
    reveal_strlit("α");
    reveal_strlit("β");
    reveal_strlit("γ");
    reveal_strlit("δ");
    reveal_strlit("ε");
    reveal_strlit("☉");
    reveal_strlit("☽");
    reveal_strlit("☿");
    reveal_strlit("♂");
    reveal_strlit("♃");
    assert(ascii_lower_seq("Brihaspati"@) =~= "brihaspati"@);
    assert(ascii_lower_seq("BRIHASPATI"@) =~= "brihaspati"@);
    assert(ascii_upper_seq("Brihaspati"@) =~= "BRIHASPATI"@);
    assert(ascii_lower_seq("brihaspati"@) =~= "brihaspati"@);
    assert(ascii_lower_seq("Jupiter"@) =~= "jupiter"@);
    assert(ascii_lower_seq("jupiter"@) =~= "jupiter"@);
    assert(ascii_lower_seq("♃"@) =~= "♃"@);
    assert(ascii_lower_seq("ε"@) =~= "ε"@);
    assert("jupiter"@ != "chandra"@) by {
        assert("jupiter"@[0] != "chandra"@[0]);
    }
    assert("jupiter"@ != "mangala"@) by {
        assert("jupiter"@[0] != "mangala"@[0]);
    }
    assert("jupiter"@ != "mercury"@) by {
        assert("jupiter"@[0] != "mercury"@[0]);
    }
    assert("ε"@ != "☉"@) by {
        assert("ε"@[0] != "☉"@[0]);
    }
    assert("ε"@ != "α"@) by {
        assert("ε"@[0] != "α"@[0]);
    }
    assert("ε"@ != "☽"@) by {
        assert("ε"@[0] != "☽"@[0]);
    }
    assert("ε"@ != "β"@) by {
        assert("ε"@[0] != "β"@[0]);
    }
    assert("ε"@ != "♂"@) by {
        assert("ε"@[0] != "♂"@[0]);
    }
    assert("ε"@ != "γ"@) by {
        assert("ε"@[0] != "γ"@[0]);
    }
    assert("ε"@ != "☿"@) by {
        assert("ε"@[0] != "☿"@[0]);
    }
    assert("ε"@ != "δ"@) by {
        assert("ε"@[0] != "δ"@[0]);
    }
    assert("♃"@ != "☉"@) by {
        assert("♃"@[0] != "☉"@[0]);
    }
    assert("♃"@ != "α"@) by {
        assert("♃"@[0] != "α"@[0]);
    }
    assert("♃"@ != "☽"@) by {
        assert("♃"@[0] != "☽"@[0]);
    }
    assert("♃"@ != "β"@) by {
        assert("♃"@[0] != "β"@[0]);
    }
    assert("♃"@ != "♂"@) by {
        assert("♃"@[0] != "♂"@[0]);
    }
    assert("♃"@ != "γ"@) by {
        assert("♃"@[0] != "γ"@[0]);
    }
    assert("♃"@ != "☿"@) by {
        assert("♃"@[0] != "☿"@[0]);
    }
    assert("♃"@ != "δ"@) by {
        assert("♃"@[0] != "δ"@[0]);
    }
}

proof fn lemma_parse_names_shukra()
    ensures
        names_parse_to(Domain::Shukra),
{
    reveal_strlit("SHUKRA");
    reveal_strlit("Shukra");
    reveal_strlit("Venus");
    reveal_strlit("alpha");
    reveal_strlit("beta");
    reveal_strlit("brihaspati");
    reveal_strlit("budha");
    reveal_strlit("chandra");
    reveal_strlit("delta");
    reveal_strlit("epsilon");
    reveal_strlit("gamma");
    reveal_strlit("jupiter");
    reveal_strlit("mangala");
    reveal_strlit("mars");
    reveal_strlit("mercury");
    reveal_strlit("moon");
    reveal_strlit("shukra");
    reveal_strlit("sun");
    reveal_strlit("surya");
    reveal_strlit("venus");
    reveal_strlit("zeta");
    reveal_strlit("α");
    reveal_strlit("β");
    reveal_strlit("γ");
    reveal_strlit("δ");
    reveal_strlit("ε");
    reveal_strlit("ζ");
    reveal_strlit("☉");
    reveal_strlit("☽");
    reveal_strlit("☿");
    reveal_strlit("♀");
    reveal_strlit("♂");
    reveal_strlit("♃");
    assert(ascii_lower_seq("Shukra"@) =~= "shukra"@);
    assert(ascii_lower_seq("SHUKRA"@) =~= "shukra"@);
    assert(ascii_upper_seq("Shukra"@) =~= "SHUKRA"@);
    assert(ascii_lower_seq("shukra"@) =~= "shukra"@);
    assert(ascii_lower_seq("Venus"@) =~= "venus"@);
    assert(ascii_lower_seq("venus"@) =~= "venus"@);
    assert(ascii_lower_seq("♀"@) =~= "♀"@);
    assert(ascii_lower_seq("ζ"@) =~= "ζ"@);
    assert("venus"@ != "surya"@) by {
        assert("venus"@[0] != "surya"@[0]);
    }
    assert("venus"@ != "alpha"@) by {
        assert("venus"@[0] != "alpha"@[0]);
    }
    assert("venus"@ != "gamma"@) by {
        assert("venus"@[0] != "gamma"@[0]);
    }
    assert("venus"@ != "budha"@) by {
        assert("venus"@[0] != "budha"@[0]);
    }
    assert("venus"@ != "delta"@) by {
        assert("venus"@[0] != "delta"@[0]);
    }
    assert("ζ"@ != "☉"@) by {
        assert("ζ"@[0] != "☉"@[0]);
    }
    assert("ζ"@ != "α"@) by {
        assert("ζ"@[0] != "α"@[0]);
    }
    assert("ζ"@ != "☽"@) by {
        assert("ζ"@[0] != "☽"@[0]);
    }
    assert("ζ"@ != "β"@) by {
        assert("ζ"@[0] != "β"@[0]);
    }
    assert("ζ"@ != "♂"@) by {
        assert("ζ"@[0] != "♂"@[0]);
    }
    assert("ζ"@ != "γ"@) by {
        assert("ζ"@[0] != "γ"@[0]);
    }
    assert("ζ"@ != "☿"@) by {
        assert("ζ"@[0] != "☿"@[0]);
    }
    assert("ζ"@ != "δ"@) by {
        assert("ζ"@[0] != "δ"@[0]);
    }
    assert("ζ"@ != "♃"@) by {
        assert("ζ"@[0] != "♃"@[0]);
    }
    assert("ζ"@ != "ε"@) by {
        assert("ζ"@[0] != "ε"@[0]);
    }
    assert("♀"@ != "☉"@) by {
        assert("♀"@[0] != "☉"@[0]);
    }
    assert("♀"@ != "α"@) by {
        assert("♀"@[0] != "α"@[0]);
    }
    assert("♀"@ != "☽"@) by {
        assert("♀"@[0] != "☽"@[0]);
    }
    assert("♀"@ != "β"@) by {
        assert("♀"@[0] != "β"@[0]);
    }
    assert("♀"@ != "♂"@) by {
        assert("♀"@[0] != "♂"@[0]);
    }
    assert("♀"@ != "γ"@) by {
        assert("♀"@[0] != "γ"@[0]);
    }
    assert("♀"@ != "☿"@) by {
        assert("♀"@[0] != "☿"@[0]);
    }
    assert("♀"@ != "δ"@) by {
        assert("♀"@[0] != "δ"@[0]);
    }
    assert("♀"@ != "♃"@) by {
        assert("♀"@[0] != "♃"@[0]);
    }
    assert("♀"@ != "ε"@) by {
        assert("♀"@[0] != "ε"@[0]);
    }
}

proof fn lemma_parse_names_shani()
    ensures
        names_parse_to(Domain::Shani),
{
    reveal_strlit("SHANI");
    reveal_strlit("Saturn");
    reveal_strlit("Shani");
    reveal_strlit("alpha");
    reveal_strlit("beta");
    reveal_strlit("brihaspati");
    reveal_strlit("budha");
    reveal_strlit("chandra");
    reveal_strlit("delta");
    reveal_strlit("epsilon");
    reveal_strlit("eta");
    reveal_strlit("gamma");
    reveal_strlit("jupiter");
    reveal_strlit("mangala");
    reveal_strlit("mars");
    reveal_strlit("mercury");
    reveal_strlit("moon");
    reveal_strlit("saturn");
    reveal_strlit("shani");
    reveal_strlit("shukra");
    reveal_strlit("sun");
    reveal_strlit("surya");
    reveal_strlit("venus");
    reveal_strlit("zeta");
    reveal_strlit("α");
    reveal_strlit("β");
    reveal_strlit("γ");
    reveal_strlit("δ");
    reveal_strlit("ε");
    reveal_strlit("ζ");
    reveal_strlit("η");
    reveal_strlit("☉");
    reveal_strlit("☽");
    reveal_strlit("☿");
    reveal_strlit("♀");
    reveal_strlit("♂");
    reveal_strlit("♃");
    reveal_strlit("♄");
    assert(ascii_lower_seq("Shani"@) =~= "shani"@);
    assert(ascii_lower_seq("SHANI"@) =~= "shani"@);
    assert(ascii_upper_seq("Shani"@) =~= "SHANI"@);
    assert(ascii_lower_seq("shani"@) =~= "shani"@);
    assert(ascii_lower_seq("Saturn"@) =~= "saturn"@);
    assert(ascii_lower_seq("saturn"@) =~= "saturn"@);
    assert(ascii_lower_seq("♄"@) =~= "♄"@);
    assert(ascii_lower_seq("η"@) =~= "η"@);
    assert("saturn"@ != "shukra"@) by {
        assert("saturn"@[1] != "shukra"@[1]);
    }
    assert("shani"@ != "surya"@) by {
        assert("shani"@[1] != "surya"@[1]);
    }
    assert("shani"@ != "alpha"@) by {
        assert("shani"@[0] != "alpha"@[0]);
    }
    assert("shani"@ != "gamma"@) by {
        assert("shani"@[0] != "gamma"@[0]);
    }
    assert("shani"@ != "budha"@) by {
        assert("shani"@[0] != "budha"@[0]);
    }
    assert("shani"@ != "delta"@) by {
        assert("shani"@[0] != "delta"@[0]);
    }
    assert("shani"@ != "venus"@) by {
        assert("shani"@[0] != "venus"@[0]);
    }
    assert("η"@ != "☉"@) by {
        assert("η"@[0] != "☉"@[0]);
    }
    assert("η"@ != "α"@) by {
        assert("η"@[0] != "α"@[0]);
    }
    assert("η"@ != "☽"@) by {
        assert("η"@[0] != "☽"@[0]);
    }
    assert("η"@ != "β"@) by {
        assert("η"@[0] != "β"@[0]);
    }
    assert("η"@ != "♂"@) by {
        assert("η"@[0] != "♂"@[0]);
    }
    assert("η"@ != "γ"@) by {
        assert("η"@[0] != "γ"@[0]);
    }
    assert("η"@ != "☿"@) by {
        assert("η"@[0] != "☿"@[0]);
    }
    assert("η"@ != "δ"@) by {
        assert("η"@[0] != "δ"@[0]);
    }
    assert("η"@ != "♃"@) by {
        assert("η"@[0] != "♃"@[0]);
    }
    assert("η"@ != "ε"@) by {
        assert("η"@[0] != "ε"@[0]);
    }
    assert("η"@ != "♀"@) by {
        assert("η"@[0] != "♀"@[0]);
    }
    assert("η"@ != "ζ"@) by {
        assert("η"@[0] != "ζ"@[0]);
    }
    assert("♄"@ != "☉"@) by {
        assert("♄"@[0] != "☉"@[0]);
    }
    assert("♄"@ != "α"@) by {
        assert("♄"@[0] != "α"@[0]);
    }
    assert("♄"@ != "☽"@) by {
        assert("♄"@[0] != "☽"@[0]);
    }
    assert("♄"@ != "β"@) by {
        assert("♄"@[0] != "β"@[0]);
    }
    assert("♄"@ != "♂"@) by {
        assert("♄"@[0] != "♂"@[0]);
    }
    assert("♄"@ != "γ"@) by {
        assert("♄"@[0] != "γ"@[0]);
    }
    assert("♄"@ != "☿"@) by {
        assert("♄"@[0] != "☿"@[0]);
    }
    assert("♄"@ != "δ"@) by {
        assert("♄"@[0] != "δ"@[0]);
    }
    assert("♄"@ != "♃"@) by {
        assert("♄"@[0] != "♃"@[0]);
    }
    assert("♄"@ != "ε"@) by {
        assert("♄"@[0] != "ε"@[0]);
    }
    assert("♄"@ != "♀"@) by {
        assert("♄"@[0] != "♀"@[0]);
    }
    assert("♄"@ != "ζ"@) by {
        assert("♄"@[0] != "ζ"@[0]);
    }
}

proof fn lemma_parse_names_rahu()
    ensures
        names_parse_to(Domain::Rahu),
{
    reveal_strlit("North Node");
    reveal_strlit("RAHU");
    reveal_strlit("Rahu");
    reveal_strlit("alpha");
    reveal_strlit("beta");
    reveal_strlit("brihaspati");
    reveal_strlit("budha");
    reveal_strlit("chandra");
    reveal_strlit("delta");
    reveal_strlit("epsilon");
    reveal_strlit("eta");
    reveal_strlit("gamma");
    reveal_strlit("jupiter");
    reveal_strlit("mangala");
    reveal_strlit("mars");
    reveal_strlit("mercury");
    reveal_strlit("moon");
    reveal_strlit("north node");
    reveal_strlit("rahu");
    reveal_strlit("saturn");
    reveal_strlit("shani");
    reveal_strlit("shukra");
    reveal_strlit("sun");
    reveal_strlit("surya");
    reveal_strlit("theta");
    reveal_strlit("venus");
    reveal_strlit("zeta");
    reveal_strlit("α");
    reveal_strlit("β");
    reveal_strlit("γ");
    reveal_strlit("δ");
    reveal_strlit("ε");
    reveal_strlit("ζ");
    reveal_strlit("η");
    reveal_strlit("θ");
    reveal_strlit("☉");
    reveal_strlit("☊");
    reveal_strlit("☽");
    reveal_strlit("☿");
    reveal_strlit("♀");
    reveal_strlit("♂");
    reveal_strlit("♃");
    reveal_strlit("♄");
    assert(ascii_lower_seq("Rahu"@) =~= "rahu"@);
    assert(ascii_lower_seq("RAHU"@) =~= "rahu"@);
    assert(ascii_upper_seq("Rahu"@) =~= "RAHU"@);
    assert(ascii_lower_seq("rahu"@) =~= "rahu"@);
    assert(ascii_lower_seq("North Node"@) =~= "north node"@);
    assert(ascii_lower_seq("rahu"@) =~= "rahu"@);
    assert(ascii_lower_seq("☊"@) =~= "☊"@);
    assert(ascii_lower_seq("θ"@) =~= "θ"@);
    assert("north node"@ != "brihaspati"@) by {
        assert("north node"@[0] != "brihaspati"@[0]);
    }
    assert("rahu"@ != "moon"@) by {
        assert("rahu"@[0] != "moon"@[0]);
    }
    assert("rahu"@ != "beta"@) by {
        assert("rahu"@[0] != "beta"@[0]);
    }
    assert("rahu"@ != "mars"@) by {
        assert("rahu"@[0] != "mars"@[0]);
    }
    assert("rahu"@ != "zeta"@) by {
        assert("rahu"@[0] != "zeta"@[0]);
    }
    assert("θ"@ != "☉"@) by {
        assert("θ"@[0] != "☉"@[0]);
    }
    assert("θ"@ != "α"@) by {
        assert("θ"@[0] != "α"@[0]);
    }
    assert("θ"@ != "☽"@) by {
        assert("θ"@[0] != "☽"@[0]);
    }
    assert("θ"@ != "β"@) by {
        assert("θ"@[0] != "β"@[0]);
    }
    assert("θ"@ != "♂"@) by {
        assert("θ"@[0] != "♂"@[0]);
    }
    assert("θ"@ != "γ"@) by {
        assert("θ"@[0] != "γ"@[0]);
    }
    assert("θ"@ != "☿"@) by {
        assert("θ"@[0] != "☿"@[0]);
    }
    assert("θ"@ != "δ"@) by {
        assert("θ"@[0] != "δ"@[0]);
    }
    assert("θ"@ != "♃"@) by {
        assert("θ"@[0] != "♃"@[0]);
    }
    assert("θ"@ != "ε"@) by {
        assert("θ"@[0] != "ε"@[0]);
    }
    assert("θ"@ != "♀"@) by {
        assert("θ"@[0] != "♀"@[0]);
    }
    assert("θ"@ != "ζ"@) by {
        assert("θ"@[0] != "ζ"@[0]);
    }
    assert("θ"@ != "♄"@) by {
        assert("θ"@[0] != "♄"@[0]);
    }
    assert("θ"@ != "η"@) by {
        assert("θ"@[0] != "η"@[0]);
    }
    assert("☊"@ != "☉"@) by {
        assert("☊"@[0] != "☉"@[0]);
    }
    assert("☊"@ != "α"@) by {
        assert("☊"@[0] != "α"@[0]);
    }
    assert("☊"@ != "☽"@) by {
        assert("☊"@[0] != "☽"@[0]);
    }
    assert("☊"@ != "β"@) by {
        assert("☊"@[0] != "β"@[0]);
    }
    assert("☊"@ != "♂"@) by {
        assert("☊"@[0] != "♂"@[0]);
    }
    assert("☊"@ != "γ"@) by {
        assert("☊"@[0] != "γ"@[0]);
    }
    assert("☊"@ != "☿"@) by {
        assert("☊"@[0] != "☿"@[0]);
    }
    assert("☊"@ != "δ"@) by {
        assert("☊"@[0] != "δ"@[0]);
    }
    assert("☊"@ != "♃"@) by {
        assert("☊"@[0] != "♃"@[0]);
    }
    assert("☊"@ != "ε"@) by {
        assert("☊"@[0] != "ε"@[0]);
    }
    assert("☊"@ != "♀"@) by {
        assert("☊"@[0] != "♀"@[0]);
    }
    assert("☊"@ != "ζ"@) by {
        assert("☊"@[0] != "ζ"@[0]);
    }
    assert("☊"@ != "♄"@) by {
        assert("☊"@[0] != "♄"@[0]);
    }
    assert("☊"@ != "η"@) by {
        assert("☊"@[0] != "η"@[0]);
    }
}

proof fn lemma_parse_names_ketu()
    ensures
        names_parse_to(Domain::Ketu),
{
    reveal_strlit("KETU");
    reveal_strlit("Ketu");
    reveal_strlit("South Node");
    reveal_strlit("alpha");
    reveal_strlit("beta");
    reveal_strlit("brihaspati");
    reveal_strlit("budha");
    reveal_strlit("chandra");
    reveal_strlit("delta");
    reveal_strlit("epsilon");
    reveal_strlit("eta");
    reveal_strlit("gamma");
    reveal_strlit("iota");
    reveal_strlit("jupiter");
    reveal_strlit("ketu");
    reveal_strlit("mangala");
    reveal_strlit("mars");
    reveal_strlit("mercury");
    reveal_strlit("moon");
    reveal_strlit("north node");
    reveal_strlit("rahu");
    reveal_strlit("saturn");
    reveal_strlit("shani");
    reveal_strlit("shukra");
    reveal_strlit("south node");
    reveal_strlit("sun");
    reveal_strlit("surya");
    reveal_strlit("theta");
    reveal_strlit("venus");
    reveal_strlit("zeta");
    reveal_strlit("α");
    reveal_strlit("β");
    reveal_strlit("γ");
    reveal_strlit("δ");
    reveal_strlit("ε");
    reveal_strlit("ζ");
    reveal_strlit("η");
    reveal_strlit("θ");
    reveal_strlit("ι");
    reveal_strlit("☉");
    reveal_strlit("☊");
    reveal_strlit("☋");
    reveal_strlit("☽");
    reveal_strlit("☿");
    reveal_strlit("♀");
    reveal_strlit("♂");
    reveal_strlit("♃");
    reveal_strlit("♄");
    assert(ascii_lower_seq("Ketu"@) =~= "ketu"@);
    assert(ascii_lower_seq("KETU"@) =~= "ketu"@);
    assert(ascii_upper_seq("Ketu"@) =~= "KETU"@);
    assert(ascii_lower_seq("ketu"@) =~= "ketu"@);
    assert(ascii_lower_seq("South Node"@) =~= "south node"@);
    assert(ascii_lower_seq("ketu"@) =~= "ketu"@);
    assert(ascii_lower_seq("☋"@) =~= "☋"@);
    assert(ascii_lower_seq("ι"@) =~= "ι"@);
    assert("ketu"@ != "moon"@) by {
        assert("ketu"@[0] != "moon"@[0]);
    }
    assert("ketu"@ != "beta"@) by {
        assert("ketu"@[0] != "beta"@[0]);
    }
    assert("ketu"@ != "mars"@) by {
        assert("ketu"@[0] != "mars"@[0]);
    }
    assert("ketu"@ != "zeta"@) by {
        assert("ketu"@[0] != "zeta"@[0]);
    }
    assert("ketu"@ != "rahu"@) by {
        assert("ketu"@[0] != "rahu"@[0]);
    }
    assert("south node"@ != "brihaspati"@) by {
        assert("south node"@[0] != "brihaspati"@[0]);
    }
    assert("south node"@ != "north node"@) by {
        assert("south node"@[0] != "north node"@[0]);
    }
    assert("ι"@ != "☉"@) by {
        assert("ι"@[0] != "☉"@[0]);
    }
    assert("ι"@ != "α"@) by {
        assert("ι"@[0] != "α"@[0]);
    }
    assert("ι"@ != "☽"@) by {
        assert("ι"@[0] != "☽"@[0]);
    }
    assert("ι"@ != "β"@) by {
        assert("ι"@[0] != "β"@[0]);
    }
    assert("ι"@ != "♂"@) by {
        assert("ι"@[0] != "♂"@[0]);
    }
    assert("ι"@ != "γ"@) by {
        assert("ι"@[0] != "γ"@[0]);
    }
    assert("ι"@ != "☿"@) by {
        assert("ι"@[0] != "☿"@[0]);
    }
    assert("ι"@ != "δ"@) by {
        assert("ι"@[0] != "δ"@[0]);
    }
    assert("ι"@ != "♃"@) by {
        assert("ι"@[0] != "♃"@[0]);
    }
    assert("ι"@ != "ε"@) by {
        assert("ι"@[0] != "ε"@[0]);
    }
    assert("ι"@ != "♀"@) by {
        assert("ι"@[0] != "♀"@[0]);
    }
    assert("ι"@ != "ζ"@) by {
        assert("ι"@[0] != "ζ"@[0]);
    }
    assert("ι"@ != "♄"@) by {
        assert("ι"@[0] != "♄"@[0]);
    }
    assert("ι"@ != "η"@) by {
        assert("ι"@[0] != "η"@[0]);
    }
    assert("ι"@ != "☊"@) by {
        assert("ι"@[0] != "☊"@[0]);
    }
    assert("ι"@ != "θ"@) by {
        assert("ι"@[0] != "θ"@[0]);
    }
    assert("☋"@ != "☉"@) by {
        assert("☋"@[0] != "☉"@[0]);
    }
    assert("☋"@ != "α"@) by {
        assert("☋"@[0] != "α"@[0]);
    }
    assert("☋"@ != "☽"@) by {
        assert("☋"@[0] != "☽"@[0]);
    }
    assert("☋"@ != "β"@) by {
        assert("☋"@[0] != "β"@[0]);
    }
    assert("☋"@ != "♂"@) by {
        assert("☋"@[0] != "♂"@[0]);
    }
    assert("☋"@ != "γ"@) by {
        assert("☋"@[0] != "γ"@[0]);
    }
    assert("☋"@ != "☿"@) by {
        assert("☋"@[0] != "☿"@[0]);
    }
    assert("☋"@ != "δ"@) by {
        assert("☋"@[0] != "δ"@[0]);
    }
    assert("☋"@ != "♃"@) by {
        assert("☋"@[0] != "♃"@[0]);
    }
    assert("☋"@ != "ε"@) by {
        assert("☋"@[0] != "ε"@[0]);
    }
    assert("☋"@ != "♀"@) by {
        assert("☋"@[0] != "♀"@[0]);
    }
    assert("☋"@ != "ζ"@) by {
        assert("☋"@[0] != "ζ"@[0]);
    }
    assert("☋"@ != "♄"@) by {
        assert("☋"@[0] != "♄"@[0]);
    }
    assert("☋"@ != "η"@) by {
        assert("☋"@[0] != "η"@[0]);
    }
    assert("☋"@ != "☊"@) by {
        assert("☋"@[0] != "☊"@[0]);
    }
    assert("☋"@ != "θ"@) by {
        assert("☋"@[0] != "θ"@[0]);
    }
}

/// `Domain::parse` accepts each domain's Sanskrit name (as written, lowercase
/// and uppercase), English name (as written and lowercase), symbol and Greek
/// letter, and gives that domain back.
pub proof fn law_parse_accepts_every_name(d: Domain)
    ensures
        names_parse_to(d),
{
    match d {
        Domain::Surya => lemma_parse_names_surya(),
        Domain::Chandra => lemma_parse_names_chandra(),
        Domain::Mangala => lemma_parse_names_mangala(),
        Domain::Budha => lemma_parse_names_budha(),
        Domain::Brihaspati => lemma_parse_names_brihaspati(),
        Domain::Shukra => lemma_parse_names_shukra(),
        Domain::Shani => lemma_parse_names_shani(),
        Domain::Rahu => lemma_parse_names_rahu(),
        Domain::Ketu => lemma_parse_names_ketu(),
    }
}


/// An aspect is direct exactly when it is no tension: formulas compose
/// directly across the aligned, adjacent and harmonic (trine) aspects; so two
/// domains compose directly exactly when they are 0, 1 or 3 steps apart.
pub proof fn law_direct_is_no_tension(a: CompositionAspect, x: Domain, y: Domain)
    ensures
        a.direct() == !a.tension(),
        CompositionAspect::Aligned.direct() && CompositionAspect::Adjacent.direct()
            && CompositionAspect::Harmonic.direct(),
        aspect_of(x, y).direct() <==> (wheel_steps(x.idx(), y.idx()) == 0 || wheel_steps(
            x.idx(),
            y.idx(),
        ) == 1 || wheel_steps(x.idx(), y.idx()) == 3),
{
}

} // verus!
