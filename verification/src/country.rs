//! The fixed enumeration of countries a product may belong to, with the
//! display names, slugs and flag codes the directory site uses.

use vstd::prelude::*;
use crate::text::str_eq;

verus! {

/// How many countries the enumeration holds.
pub const COUNTRY_COUNT: usize = 30;

/// A country of the fixed enumeration.
#[derive(Debug, Clone, Copy, PartialEq, Eq, Structural)]
pub enum Country {
    Austria,
    Belgium,
    Bulgaria,
    Croatia,
    Cyprus,
    CzechRepublic,
    Denmark,
    Estonia,
    Finland,
    France,
    Germany,
    Greece,
    Hungary,
    Ireland,
    Italy,
    Latvia,
    Lithuania,
    Luxembourg,
    Malta,
    Netherlands,
    Poland,
    Portugal,
    Romania,
    Slovakia,
    Slovenia,
    Spain,
    Sweden,
    Switzerland,
    UnitedKingdom,
    Ukraine,
}

impl Country {
    /// The position of this country in the enumeration order.
    pub open spec fn ordinal_spec(&self) -> int {
        match self {
            Country::Austria => 0,
            Country::Belgium => 1,
            Country::Bulgaria => 2,
            Country::Croatia => 3,
            Country::Cyprus => 4,
            Country::CzechRepublic => 5,
            Country::Denmark => 6,
            Country::Estonia => 7,
            Country::Finland => 8,
            Country::France => 9,
            Country::Germany => 10,
            Country::Greece => 11,
            Country::Hungary => 12,
            Country::Ireland => 13,
            Country::Italy => 14,
            Country::Latvia => 15,
            Country::Lithuania => 16,
            Country::Luxembourg => 17,
            Country::Malta => 18,
            Country::Netherlands => 19,
            Country::Poland => 20,
            Country::Portugal => 21,
            Country::Romania => 22,
            Country::Slovakia => 23,
            Country::Slovenia => 24,
            Country::Spain => 25,
            Country::Sweden => 26,
            Country::Switzerland => 27,
            Country::UnitedKingdom => 28,
            Country::Ukraine => 29,
        }
    }

    /// The position of this country in the enumeration order.
    pub fn ordinal(&self) -> (r: usize)
        ensures
            r == self.ordinal_spec(),
            r < COUNTRY_COUNT,
    {
        match self {
            Country::Austria => 0,
            Country::Belgium => 1,
            Country::Bulgaria => 2,
            Country::Croatia => 3,
            Country::Cyprus => 4,
            Country::CzechRepublic => 5,
            Country::Denmark => 6,
            Country::Estonia => 7,
            Country::Finland => 8,
            Country::France => 9,
            Country::Germany => 10,
            Country::Greece => 11,
            Country::Hungary => 12,
            Country::Ireland => 13,
            Country::Italy => 14,
            Country::Latvia => 15,
            Country::Lithuania => 16,
            Country::Luxembourg => 17,
            Country::Malta => 18,
            Country::Netherlands => 19,
            Country::Poland => 20,
            Country::Portugal => 21,
            Country::Romania => 22,
            Country::Slovakia => 23,
            Country::Slovenia => 24,
            Country::Spain => 25,
            Country::Sweden => 26,
            Country::Switzerland => 27,
            Country::UnitedKingdom => 28,
            Country::Ukraine => 29,
        }
    }

    /// The human-readable name of this country.
    pub open spec fn display_spec(&self) -> Seq<char> {
        match self {
            Country::Austria => "Austria"@,
            Country::Belgium => "Belgium"@,
            Country::Bulgaria => "Bulgaria"@,
            Country::Croatia => "Croatia"@,
            Country::Cyprus => "Cyprus"@,
            Country::CzechRepublic => "Czech Republic"@,
            Country::Denmark => "Denmark"@,
            Country::Estonia => "Estonia"@,
            Country::Finland => "Finland"@,
            Country::France => "France"@,
            Country::Germany => "Germany"@,
            Country::Greece => "Greece"@,
            Country::Hungary => "Hungary"@,
            Country::Ireland => "Ireland"@,
            Country::Italy => "Italy"@,
            Country::Latvia => "Latvia"@,
            Country::Lithuania => "Lithuania"@,
            Country::Luxembourg => "Luxembourg"@,
            Country::Malta => "Malta"@,
            Country::Netherlands => "Netherlands"@,
            Country::Poland => "Poland"@,
            Country::Portugal => "Portugal"@,
            Country::Romania => "Romania"@,
            Country::Slovakia => "Slovakia"@,
            Country::Slovenia => "Slovenia"@,
            Country::Spain => "Spain"@,
            Country::Sweden => "Sweden"@,
            Country::Switzerland => "Switzerland"@,
            Country::UnitedKingdom => "United Kingdom"@,
            Country::Ukraine => "Ukraine"@,
        }
    }

    /// The human-readable name of this country.
    pub fn display_name(&self) -> (r: &'static str)
        ensures
            r@ == self.display_spec(),
    {
        match self {
            Country::Austria => "Austria",
            Country::Belgium => "Belgium",
            Country::Bulgaria => "Bulgaria",
            Country::Croatia => "Croatia",
            Country::Cyprus => "Cyprus",
            Country::CzechRepublic => "Czech Republic",
            Country::Denmark => "Denmark",
            Country::Estonia => "Estonia",
            Country::Finland => "Finland",
            Country::France => "France",
            Country::Germany => "Germany",
            Country::Greece => "Greece",
            Country::Hungary => "Hungary",
            Country::Ireland => "Ireland",
            Country::Italy => "Italy",
            Country::Latvia => "Latvia",
            Country::Lithuania => "Lithuania",
            Country::Luxembourg => "Luxembourg",
            Country::Malta => "Malta",
            Country::Netherlands => "Netherlands",
            Country::Poland => "Poland",
            Country::Portugal => "Portugal",
            Country::Romania => "Romania",
            Country::Slovakia => "Slovakia",
            Country::Slovenia => "Slovenia",
            Country::Spain => "Spain",
            Country::Sweden => "Sweden",
            Country::Switzerland => "Switzerland",
            Country::UnitedKingdom => "United Kingdom",
            Country::Ukraine => "Ukraine",
        }
    }

    /// The snake-cased identifier of this country.
    pub open spec fn slug_spec(&self) -> Seq<char> {
        match self {
            Country::Austria => "austria"@,
            Country::Belgium => "belgium"@,
            Country::Bulgaria => "bulgaria"@,
            Country::Croatia => "croatia"@,
            Country::Cyprus => "cyprus"@,
            Country::CzechRepublic => "czech_republic"@,
            Country::Denmark => "denmark"@,
            Country::Estonia => "estonia"@,
            Country::Finland => "finland"@,
            Country::France => "france"@,
            Country::Germany => "germany"@,
            Country::Greece => "greece"@,
            Country::Hungary => "hungary"@,
            Country::Ireland => "ireland"@,
            Country::Italy => "italy"@,
            Country::Latvia => "latvia"@,
            Country::Lithuania => "lithuania"@,
            Country::Luxembourg => "luxembourg"@,
            Country::Malta => "malta"@,
            Country::Netherlands => "netherlands"@,
            Country::Poland => "poland"@,
            Country::Portugal => "portugal"@,
            Country::Romania => "romania"@,
            Country::Slovakia => "slovakia"@,
            Country::Slovenia => "slovenia"@,
            Country::Spain => "spain"@,
            Country::Sweden => "sweden"@,
            Country::Switzerland => "switzerland"@,
            Country::UnitedKingdom => "united_kingdom"@,
            Country::Ukraine => "ukraine"@,
        }
    }

    /// The snake-cased identifier of this country.
    pub fn slug(&self) -> (r: &'static str)
        ensures
            r@ == self.slug_spec(),
    {
        match self {
            Country::Austria => "austria",
            Country::Belgium => "belgium",
            Country::Bulgaria => "bulgaria",
            Country::Croatia => "croatia",
            Country::Cyprus => "cyprus",
            Country::CzechRepublic => "czech_republic",
            Country::Denmark => "denmark",
            Country::Estonia => "estonia",
            Country::Finland => "finland",
            Country::France => "france",
            Country::Germany => "germany",
            Country::Greece => "greece",
            Country::Hungary => "hungary",
            Country::Ireland => "ireland",
            Country::Italy => "italy",
            Country::Latvia => "latvia",
            Country::Lithuania => "lithuania",
            Country::Luxembourg => "luxembourg",
            Country::Malta => "malta",
            Country::Netherlands => "netherlands",
            Country::Poland => "poland",
            Country::Portugal => "portugal",
            Country::Romania => "romania",
            Country::Slovakia => "slovakia",
            Country::Slovenia => "slovenia",
            Country::Spain => "spain",
            Country::Sweden => "sweden",
            Country::Switzerland => "switzerland",
            Country::UnitedKingdom => "united_kingdom",
            Country::Ukraine => "ukraine",
        }
    }

    /// The two-letter flag code of this country.
    pub open spec fn code_spec(&self) -> Seq<char> {
        match self {
            Country::Austria => "at"@,
            Country::Belgium => "be"@,
            Country::Bulgaria => "bg"@,
            Country::Croatia => "hr"@,
            Country::Cyprus => "cy"@,
            Country::CzechRepublic => "cz"@,
            Country::Denmark => "dk"@,
            Country::Estonia => "ee"@,
            Country::Finland => "fi"@,
            Country::France => "fr"@,
            Country::Germany => "de"@,
            Country::Greece => "gr"@,
            Country::Hungary => "hu"@,
            Country::Ireland => "ie"@,
            Country::Italy => "it"@,
            Country::Latvia => "lv"@,
            Country::Lithuania => "lt"@,
            Country::Luxembourg => "lu"@,
            Country::Malta => "mt"@,
            Country::Netherlands => "nl"@,
            Country::Poland => "pl"@,
            Country::Portugal => "pt"@,
            Country::Romania => "ro"@,
            Country::Slovakia => "sk"@,
            Country::Slovenia => "si"@,
            Country::Spain => "es"@,
            Country::Sweden => "se"@,
            Country::Switzerland => "ch"@,
            Country::UnitedKingdom => "gb"@,
            Country::Ukraine => "ua"@,
        }
    }

    /// The two-letter flag code of this country.
    pub fn code(&self) -> (r: &'static str)
        ensures
            r@ == self.code_spec(),
    {
        match self {
            Country::Austria => "at",
            Country::Belgium => "be",
            Country::Bulgaria => "bg",
            Country::Croatia => "hr",
            Country::Cyprus => "cy",
            Country::CzechRepublic => "cz",
            Country::Denmark => "dk",
            Country::Estonia => "ee",
            Country::Finland => "fi",
            Country::France => "fr",
            Country::Germany => "de",
            Country::Greece => "gr",
            Country::Hungary => "hu",
            Country::Ireland => "ie",
            Country::Italy => "it",
            Country::Latvia => "lv",
            Country::Lithuania => "lt",
            Country::Luxembourg => "lu",
            Country::Malta => "mt",
            Country::Netherlands => "nl",
            Country::Poland => "pl",
            Country::Portugal => "pt",
            Country::Romania => "ro",
            Country::Slovakia => "sk",
            Country::Slovenia => "si",
            Country::Spain => "es",
            Country::Sweden => "se",
            Country::Switzerland => "ch",
            Country::UnitedKingdom => "gb",
            Country::Ukraine => "ua",
        }
    }

    /// Which country a text label denotes: either its display name or its
    /// flag code, exactly.
    pub open spec fn parse_spec(s: Seq<char>) -> Option<Country> {
        if s == "Austria"@ || s == "at"@ {
            Some(Country::Austria)
        } else if s == "Belgium"@ || s == "be"@ {
            Some(Country::Belgium)
        } else if s == "Bulgaria"@ || s == "bg"@ {
            Some(Country::Bulgaria)
        } else if s == "Croatia"@ || s == "hr"@ {
            Some(Country::Croatia)
        } else if s == "Cyprus"@ || s == "cy"@ {
            Some(Country::Cyprus)
        } else if s == "Czech Republic"@ || s == "cz"@ {
            Some(Country::CzechRepublic)
        } else if s == "Denmark"@ || s == "dk"@ {
            Some(Country::Denmark)
        } else if s == "Estonia"@ || s == "ee"@ {
            Some(Country::Estonia)
        } else if s == "Finland"@ || s == "fi"@ {
            Some(Country::Finland)
        } else if s == "France"@ || s == "fr"@ {
            Some(Country::France)
        } else if s == "Germany"@ || s == "de"@ {
            Some(Country::Germany)
        } else if s == "Greece"@ || s == "gr"@ {
            Some(Country::Greece)
        } else if s == "Hungary"@ || s == "hu"@ {
            Some(Country::Hungary)
        } else if s == "Ireland"@ || s == "ie"@ {
            Some(Country::Ireland)
        } else if s == "Italy"@ || s == "it"@ {
            Some(Country::Italy)
        } else if s == "Latvia"@ || s == "lv"@ {
            Some(Country::Latvia)
        } else if s == "Lithuania"@ || s == "lt"@ {
            Some(Country::Lithuania)
        } else if s == "Luxembourg"@ || s == "lu"@ {
            Some(Country::Luxembourg)
        } else if s == "Malta"@ || s == "mt"@ {
            Some(Country::Malta)
        } else if s == "Netherlands"@ || s == "nl"@ {
            Some(Country::Netherlands)
        } else if s == "Poland"@ || s == "pl"@ {
            Some(Country::Poland)
        } else if s == "Portugal"@ || s == "pt"@ {
            Some(Country::Portugal)
        } else if s == "Romania"@ || s == "ro"@ {
            Some(Country::Romania)
        } else if s == "Slovakia"@ || s == "sk"@ {
            Some(Country::Slovakia)
        } else if s == "Slovenia"@ || s == "si"@ {
            Some(Country::Slovenia)
        } else if s == "Spain"@ || s == "es"@ {
            Some(Country::Spain)
        } else if s == "Sweden"@ || s == "se"@ {
            Some(Country::Sweden)
        } else if s == "Switzerland"@ || s == "ch"@ {
            Some(Country::Switzerland)
        } else if s == "United Kingdom"@ || s == "gb"@ {
            Some(Country::UnitedKingdom)
        } else if s == "Ukraine"@ || s == "ua"@ {
            Some(Country::Ukraine)
        } else {
            None
        }
    }

    /// Parses a text label against the enumeration, accepting a display
    /// name or a flag code and nothing else.
    pub fn parse(s: &str) -> (r: Option<Country>)
        ensures
            r == Self::parse_spec(s@),
    {
        if str_eq(s, "Austria") || str_eq(s, "at") {
            return Some(Country::Austria);
        }
        if str_eq(s, "Belgium") || str_eq(s, "be") {
            return Some(Country::Belgium);
        }
        if str_eq(s, "Bulgaria") || str_eq(s, "bg") {
            return Some(Country::Bulgaria);
        }
        if str_eq(s, "Croatia") || str_eq(s, "hr") {
            return Some(Country::Croatia);
        }
        if str_eq(s, "Cyprus") || str_eq(s, "cy") {
            return Some(Country::Cyprus);
        }
        if str_eq(s, "Czech Republic") || str_eq(s, "cz") {
            return Some(Country::CzechRepublic);
        }
        if str_eq(s, "Denmark") || str_eq(s, "dk") {
            return Some(Country::Denmark);
        }
        if str_eq(s, "Estonia") || str_eq(s, "ee") {
            return Some(Country::Estonia);
        }
        if str_eq(s, "Finland") || str_eq(s, "fi") {
            return Some(Country::Finland);
        }
        if str_eq(s, "France") || str_eq(s, "fr") {
            return Some(Country::France);
        }
        if str_eq(s, "Germany") || str_eq(s, "de") {
            return Some(Country::Germany);
        }
        if str_eq(s, "Greece") || str_eq(s, "gr") {
            return Some(Country::Greece);
        }
        if str_eq(s, "Hungary") || str_eq(s, "hu") {
            return Some(Country::Hungary);
        }
        if str_eq(s, "Ireland") || str_eq(s, "ie") {
            return Some(Country::Ireland);
        }
        if str_eq(s, "Italy") || str_eq(s, "it") {
            return Some(Country::Italy);
        }
        if str_eq(s, "Latvia") || str_eq(s, "lv") {
            return Some(Country::Latvia);
        }
        if str_eq(s, "Lithuania") || str_eq(s, "lt") {
            return Some(Country::Lithuania);
        }
        if str_eq(s, "Luxembourg") || str_eq(s, "lu") {
            return Some(Country::Luxembourg);
        }
        if str_eq(s, "Malta") || str_eq(s, "mt") {
            return Some(Country::Malta);
        }
        if str_eq(s, "Netherlands") || str_eq(s, "nl") {
            return Some(Country::Netherlands);
        }
        if str_eq(s, "Poland") || str_eq(s, "pl") {
            return Some(Country::Poland);
        }
        if str_eq(s, "Portugal") || str_eq(s, "pt") {
            return Some(Country::Portugal);
        }
        if str_eq(s, "Romania") || str_eq(s, "ro") {
            return Some(Country::Romania);
        }
        if str_eq(s, "Slovakia") || str_eq(s, "sk") {
            return Some(Country::Slovakia);
        }
        if str_eq(s, "Slovenia") || str_eq(s, "si") {
            return Some(Country::Slovenia);
        }
        if str_eq(s, "Spain") || str_eq(s, "es") {
            return Some(Country::Spain);
        }
        if str_eq(s, "Sweden") || str_eq(s, "se") {
            return Some(Country::Sweden);
        }
        if str_eq(s, "Switzerland") || str_eq(s, "ch") {
            return Some(Country::Switzerland);
        }
        if str_eq(s, "United Kingdom") || str_eq(s, "gb") {
            return Some(Country::UnitedKingdom);
        }
        if str_eq(s, "Ukraine") || str_eq(s, "ua") {
            return Some(Country::Ukraine);
        }
        None
    }

    /// The identifier of this country's variant, as generated code spells it.
    pub open spec fn variant_spec(&self) -> Seq<char> {
        match self {
            Country::Austria => "Austria"@,
            Country::Belgium => "Belgium"@,
            Country::Bulgaria => "Bulgaria"@,
            Country::Croatia => "Croatia"@,
            Country::Cyprus => "Cyprus"@,
            Country::CzechRepublic => "CzechRepublic"@,
            Country::Denmark => "Denmark"@,
            Country::Estonia => "Estonia"@,
            Country::Finland => "Finland"@,
            Country::France => "France"@,
            Country::Germany => "Germany"@,
            Country::Greece => "Greece"@,
            Country::Hungary => "Hungary"@,
            Country::Ireland => "Ireland"@,
            Country::Italy => "Italy"@,
            Country::Latvia => "Latvia"@,
            Country::Lithuania => "Lithuania"@,
            Country::Luxembourg => "Luxembourg"@,
            Country::Malta => "Malta"@,
            Country::Netherlands => "Netherlands"@,
            Country::Poland => "Poland"@,
            Country::Portugal => "Portugal"@,
            Country::Romania => "Romania"@,
            Country::Slovakia => "Slovakia"@,
            Country::Slovenia => "Slovenia"@,
            Country::Spain => "Spain"@,
            Country::Sweden => "Sweden"@,
            Country::Switzerland => "Switzerland"@,
            Country::UnitedKingdom => "UnitedKingdom"@,
            Country::Ukraine => "Ukraine"@,
        }
    }

    /// The identifier of this country's variant, as generated code spells it.
    pub fn variant_name(&self) -> (r: &'static str)
        ensures
            r@ == self.variant_spec(),
    {
        match self {
            Country::Austria => "Austria",
            Country::Belgium => "Belgium",
            Country::Bulgaria => "Bulgaria",
            Country::Croatia => "Croatia",
            Country::Cyprus => "Cyprus",
            Country::CzechRepublic => "CzechRepublic",
            Country::Denmark => "Denmark",
            Country::Estonia => "Estonia",
            Country::Finland => "Finland",
            Country::France => "France",
            Country::Germany => "Germany",
            Country::Greece => "Greece",
            Country::Hungary => "Hungary",
            Country::Ireland => "Ireland",
            Country::Italy => "Italy",
            Country::Latvia => "Latvia",
            Country::Lithuania => "Lithuania",
            Country::Luxembourg => "Luxembourg",
            Country::Malta => "Malta",
            Country::Netherlands => "Netherlands",
            Country::Poland => "Poland",
            Country::Portugal => "Portugal",
            Country::Romania => "Romania",
            Country::Slovakia => "Slovakia",
            Country::Slovenia => "Slovenia",
            Country::Spain => "Spain",
            Country::Sweden => "Sweden",
            Country::Switzerland => "Switzerland",
            Country::UnitedKingdom => "UnitedKingdom",
            Country::Ukraine => "Ukraine",
        }
    }

    /// Every country, in enumeration order.
    pub open spec fn all_spec() -> Seq<Country> {
        seq![
            Country::Austria,
            Country::Belgium,
            Country::Bulgaria,
            Country::Croatia,
            Country::Cyprus,
            Country::CzechRepublic,
            Country::Denmark,
            Country::Estonia,
            Country::Finland,
            Country::France,
            Country::Germany,
            Country::Greece,
            Country::Hungary,
            Country::Ireland,
            Country::Italy,
            Country::Latvia,
            Country::Lithuania,
            Country::Luxembourg,
            Country::Malta,
            Country::Netherlands,
            Country::Poland,
            Country::Portugal,
            Country::Romania,
            Country::Slovakia,
            Country::Slovenia,
            Country::Spain,
            Country::Sweden,
            Country::Switzerland,
            Country::UnitedKingdom,
            Country::Ukraine,
        ]
    }

    /// Every country, in enumeration order.
    pub fn all() -> (r: Vec<Country>)
        ensures
            r@ == Self::all_spec(),
            r@.len() == COUNTRY_COUNT,
    {
        let mut r: Vec<Country> = Vec::new();
        r.push(Country::Austria);
        r.push(Country::Belgium);
        r.push(Country::Bulgaria);
        r.push(Country::Croatia);
        r.push(Country::Cyprus);
        r.push(Country::CzechRepublic);
        r.push(Country::Denmark);
        r.push(Country::Estonia);
        r.push(Country::Finland);
        r.push(Country::France);
        r.push(Country::Germany);
        r.push(Country::Greece);
        r.push(Country::Hungary);
        r.push(Country::Ireland);
        r.push(Country::Italy);
        r.push(Country::Latvia);
        r.push(Country::Lithuania);
        r.push(Country::Luxembourg);
        r.push(Country::Malta);
        r.push(Country::Netherlands);
        r.push(Country::Poland);
        r.push(Country::Portugal);
        r.push(Country::Romania);
        r.push(Country::Slovakia);
        r.push(Country::Slovenia);
        r.push(Country::Spain);
        r.push(Country::Sweden);
        r.push(Country::Switzerland);
        r.push(Country::UnitedKingdom);
        r.push(Country::Ukraine);
        proof {
            assert(r@ =~= Self::all_spec());
        }
        r
    }

    /// The country at a given enumeration position, when the position is
    /// in range.
    pub fn from_index(index: usize) -> (r: Option<Country>)
        ensures
            index < COUNTRY_COUNT <==> r is Some,
            r is Some ==> r->0.ordinal_spec() == index,
    {
        match index {
            0 => Some(Country::Austria),
            1 => Some(Country::Belgium),
            2 => Some(Country::Bulgaria),
            3 => Some(Country::Croatia),
            4 => Some(Country::Cyprus),
            5 => Some(Country::CzechRepublic),
            6 => Some(Country::Denmark),
            7 => Some(Country::Estonia),
            8 => Some(Country::Finland),
            9 => Some(Country::France),
            10 => Some(Country::Germany),
            11 => Some(Country::Greece),
            12 => Some(Country::Hungary),
            13 => Some(Country::Ireland),
            14 => Some(Country::Italy),
            15 => Some(Country::Latvia),
            16 => Some(Country::Lithuania),
            17 => Some(Country::Luxembourg),
            18 => Some(Country::Malta),
            19 => Some(Country::Netherlands),
            20 => Some(Country::Poland),
            21 => Some(Country::Portugal),
            22 => Some(Country::Romania),
            23 => Some(Country::Slovakia),
            24 => Some(Country::Slovenia),
            25 => Some(Country::Spain),
            26 => Some(Country::Sweden),
            27 => Some(Country::Switzerland),
            28 => Some(Country::UnitedKingdom),
            29 => Some(Country::Ukraine),
            _ => None,
        }
    }
}

/// Every country stands in the enumeration-order list.
pub proof fn lemma_all_spec_contains(c: Country)
    ensures
        Country::all_spec().contains(c),
{
    match c {
        Country::Austria => {
            assert(Country::all_spec()[0] == Country::Austria);
        },
        Country::Belgium => {
            assert(Country::all_spec()[1] == Country::Belgium);
        },
        Country::Bulgaria => {
            assert(Country::all_spec()[2] == Country::Bulgaria);
        },
        Country::Croatia => {
            assert(Country::all_spec()[3] == Country::Croatia);
        },
        Country::Cyprus => {
            assert(Country::all_spec()[4] == Country::Cyprus);
        },
        Country::CzechRepublic => {
            assert(Country::all_spec()[5] == Country::CzechRepublic);
        },
        Country::Denmark => {
            assert(Country::all_spec()[6] == Country::Denmark);
        },
        Country::Estonia => {
            assert(Country::all_spec()[7] == Country::Estonia);
        },
        Country::Finland => {
            assert(Country::all_spec()[8] == Country::Finland);
        },
        Country::France => {
            assert(Country::all_spec()[9] == Country::France);
        },
        Country::Germany => {
            assert(Country::all_spec()[10] == Country::Germany);
        },
        Country::Greece => {
            assert(Country::all_spec()[11] == Country::Greece);
        },
        Country::Hungary => {
            assert(Country::all_spec()[12] == Country::Hungary);
        },
        Country::Ireland => {
            assert(Country::all_spec()[13] == Country::Ireland);
        },
        Country::Italy => {
            assert(Country::all_spec()[14] == Country::Italy);
        },
        Country::Latvia => {
            assert(Country::all_spec()[15] == Country::Latvia);
        },
        Country::Lithuania => {
            assert(Country::all_spec()[16] == Country::Lithuania);
        },
        Country::Luxembourg => {
            assert(Country::all_spec()[17] == Country::Luxembourg);
        },
        Country::Malta => {
            assert(Country::all_spec()[18] == Country::Malta);
        },
        Country::Netherlands => {
            assert(Country::all_spec()[19] == Country::Netherlands);
        },
        Country::Poland => {
            assert(Country::all_spec()[20] == Country::Poland);
        },
        Country::Portugal => {
            assert(Country::all_spec()[21] == Country::Portugal);
        },
        Country::Romania => {
            assert(Country::all_spec()[22] == Country::Romania);
        },
        Country::Slovakia => {
            assert(Country::all_spec()[23] == Country::Slovakia);
        },
        Country::Slovenia => {
            assert(Country::all_spec()[24] == Country::Slovenia);
        },
        Country::Spain => {
            assert(Country::all_spec()[25] == Country::Spain);
        },
        Country::Sweden => {
            assert(Country::all_spec()[26] == Country::Sweden);
        },
        Country::Switzerland => {
            assert(Country::all_spec()[27] == Country::Switzerland);
        },
        Country::UnitedKingdom => {
            assert(Country::all_spec()[28] == Country::UnitedKingdom);
        },
        Country::Ukraine => {
            assert(Country::all_spec()[29] == Country::Ukraine);
        },
    }
}

} // verus!
