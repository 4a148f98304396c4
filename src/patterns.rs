//! The built-in table of typing shortcuts: fractions, marks, arrows,
//! currency, mathematical operators, Greek letters, superscripts and
//! subscripts.

use crate::text::chars_of;
use vstd::prelude::*;

verus! {

/// The views of a looked-up `(character, name)` pair.
pub open spec fn pair_view(r: Option<(&str, &str)>) -> Option<(Seq<char>, Seq<char>)> {
    match r {
        Some((c, n)) => Some((c@, n@)),
        None => None,
    }
}

/// Whether the characters `p` spell the literal `lit`.
fn spells(p: &Vec<char>, lit: &str) -> (r: bool)
    ensures
        r == (p@ == lit@),
{
    let l = chars_of(lit);
    if p.len() != l.len() {
        return false;
    }
    let mut i: usize = 0;
    while i < p.len()
        invariant
            i <= p.len(),
            p.len() == l.len(),
            l@ == lit@,
            p@.take(i as int) == l@.take(i as int),
        decreases p.len() - i,
    {
        if p[i] != l[i] {
            assert(p@[i as int] != l@[i as int]);
            return false;
        }
        i = i + 1;
        assert(p@.take(i as int) =~= l@.take(i as int));
    }
    assert(p@ =~= p@.take(i as int));
    assert(l@ =~= l@.take(i as int));
    true
}

/// Fractions shortcuts.
pub open spec fn fraction_pattern(p: Seq<char>) -> Option<(Seq<char>, Seq<char>)> {
    if p == "1/4"@ {
        Some(("\u{00BC}"@, "fraction one quarter"@))
    } else if p == "1/2"@ {
        Some(("\u{00BD}"@, "fraction one half"@))
    } else if p == "3/4"@ {
        Some(("\u{00BE}"@, "fraction three quarters"@))
    } else if p == "1/3"@ {
        Some(("\u{2153}"@, "fraction one third"@))
    } else if p == "2/3"@ {
        Some(("\u{2154}"@, "fraction two thirds"@))
    } else if p == "1/8"@ {
        Some(("\u{215B}"@, "fraction one eighth"@))
    } else if p == "3/8"@ {
        Some(("\u{215C}"@, "fraction three eighths"@))
    } else if p == "5/8"@ {
        Some(("\u{215D}"@, "fraction five eighths"@))
    } else if p == "7/8"@ {
        Some(("\u{215E}"@, "fraction seven eighths"@))
    } else {
        None
    }
}

fn fraction_lookup(p: &Vec<char>) -> (r: Option<(&'static str, &'static str)>)
    ensures
        pair_view(r) == fraction_pattern(p@),
{
    if spells(p, "1/4") {
        Some(("\u{00BC}", "fraction one quarter"))
    } else if spells(p, "1/2") {
        Some(("\u{00BD}", "fraction one half"))
    } else if spells(p, "3/4") {
        Some(("\u{00BE}", "fraction three quarters"))
    } else if spells(p, "1/3") {
        Some(("\u{2153}", "fraction one third"))
    } else if spells(p, "2/3") {
        Some(("\u{2154}", "fraction two thirds"))
    } else if spells(p, "1/8") {
        Some(("\u{215B}", "fraction one eighth"))
    } else if spells(p, "3/8") {
        Some(("\u{215C}", "fraction three eighths"))
    } else if spells(p, "5/8") {
        Some(("\u{215D}", "fraction five eighths"))
    } else if spells(p, "7/8") {
        Some(("\u{215E}", "fraction seven eighths"))
    } else {
        None
    }
}

/// Symbols shortcuts.
pub open spec fn symbol_pattern(p: Seq<char>) -> Option<(Seq<char>, Seq<char>)> {
    if p == "(c)"@ || p == "(C)"@ {
        Some(("\u{00A9}"@, "copyright sign"@))
    } else if p == "(r)"@ || p == "(R)"@ {
        Some(("\u{00AE}"@, "registered sign"@))
    } else if p == "(tm)"@ || p == "(TM)"@ || p == "(t)"@ || p == "(T)"@ {
        Some(("\u{2122}"@, "trade mark sign"@))
    } else if p == "(p)"@ || p == "(P)"@ {
        Some(("\u{2117}"@, "sound recording copyright"@))
    } else {
        None
    }
}

fn symbol_lookup(p: &Vec<char>) -> (r: Option<(&'static str, &'static str)>)
    ensures
        pair_view(r) == symbol_pattern(p@),
{
    if spells(p, "(c)") || spells(p, "(C)") {
        Some(("\u{00A9}", "copyright sign"))
    } else if spells(p, "(r)") || spells(p, "(R)") {
        Some(("\u{00AE}", "registered sign"))
    } else if spells(p, "(tm)") || spells(p, "(TM)") || spells(p, "(t)") || spells(p, "(T)") {
        Some(("\u{2122}", "trade mark sign"))
    } else if spells(p, "(p)") || spells(p, "(P)") {
        Some(("\u{2117}", "sound recording copyright"))
    } else {
        None
    }
}

/// Punctuation shortcuts.
pub open spec fn punctuation_pattern(p: Seq<char>) -> Option<(Seq<char>, Seq<char>)> {
    if p == "..."@ {
        Some(("\u{2026}"@, "horizontal ellipsis"@))
    } else if p == "--"@ {
        Some(("\u{2014}"@, "em dash"@))
    } else {
        None
    }
}

fn punctuation_lookup(p: &Vec<char>) -> (r: Option<(&'static str, &'static str)>)
    ensures
        pair_view(r) == punctuation_pattern(p@),
{
    if spells(p, "...") {
        Some(("\u{2026}", "horizontal ellipsis"))
    } else if spells(p, "--") {
        Some(("\u{2014}", "em dash"))
    } else {
        None
    }
}

/// Arrows shortcuts.
pub open spec fn arrow_pattern(p: Seq<char>) -> Option<(Seq<char>, Seq<char>)> {
    if p == "->"@ {
        Some(("\u{2192}"@, "rightwards arrow"@))
    } else if p == "<-"@ {
        Some(("\u{2190}"@, "leftwards arrow"@))
    } else if p == "=>"@ {
        Some(("\u{21D2}"@, "rightwards double arrow"@))
    } else if p == "<="@ {
        Some(("\u{21D0}"@, "leftwards double arrow"@))
    } else if p == "<->"@ {
        Some(("\u{2194}"@, "left right arrow"@))
    } else if p == "<=>"@ {
        Some(("\u{21D4}"@, "left right double arrow"@))
    } else if p == "^^"@ || p == "up"@ {
        Some(("\u{2191}"@, "upwards arrow"@))
    } else if p == "vv"@ || p == "down"@ {
        Some(("\u{2193}"@, "downwards arrow"@))
    } else {
        None
    }
}

fn arrow_lookup(p: &Vec<char>) -> (r: Option<(&'static str, &'static str)>)
    ensures
        pair_view(r) == arrow_pattern(p@),
{
    if spells(p, "->") {
        Some(("\u{2192}", "rightwards arrow"))
    } else if spells(p, "<-") {
        Some(("\u{2190}", "leftwards arrow"))
    } else if spells(p, "=>") {
        Some(("\u{21D2}", "rightwards double arrow"))
    } else if spells(p, "<=") {
        Some(("\u{21D0}", "leftwards double arrow"))
    } else if spells(p, "<->") {
        Some(("\u{2194}", "left right arrow"))
    } else if spells(p, "<=>") {
        Some(("\u{21D4}", "left right double arrow"))
    } else if spells(p, "^^") || spells(p, "up") {
        Some(("\u{2191}", "upwards arrow"))
    } else if spells(p, "vv") || spells(p, "down") {
        Some(("\u{2193}", "downwards arrow"))
    } else {
        None
    }
}

/// Currency shortcuts.
pub open spec fn currency_pattern(p: Seq<char>) -> Option<(Seq<char>, Seq<char>)> {
    if p == "cent"@ {
        Some(("\u{00A2}"@, "cent sign"@))
    } else if p == "pound"@ {
        Some(("\u{00A3}"@, "pound sign"@))
    } else if p == "euro"@ {
        Some(("\u{20AC}"@, "euro sign"@))
    } else if p == "yen"@ {
        Some(("\u{00A5}"@, "yen sign"@))
    } else if p == "rupee"@ {
        Some(("\u{20B9}"@, "rupee sign"@))
    } else if p == "won"@ {
        Some(("\u{20A9}"@, "won sign"@))
    } else if p == "bitcoin"@ || p == "btc"@ {
        Some(("\u{20BF}"@, "bitcoin sign"@))
    } else {
        None
    }
}

fn currency_lookup(p: &Vec<char>) -> (r: Option<(&'static str, &'static str)>)
    ensures
        pair_view(r) == currency_pattern(p@),
{
    if spells(p, "cent") {
        Some(("\u{00A2}", "cent sign"))
    } else if spells(p, "pound") {
        Some(("\u{00A3}", "pound sign"))
    } else if spells(p, "euro") {
        Some(("\u{20AC}", "euro sign"))
    } else if spells(p, "yen") {
        Some(("\u{00A5}", "yen sign"))
    } else if spells(p, "rupee") {
        Some(("\u{20B9}", "rupee sign"))
    } else if spells(p, "won") {
        Some(("\u{20A9}", "won sign"))
    } else if spells(p, "bitcoin") || spells(p, "btc") {
        Some(("\u{20BF}", "bitcoin sign"))
    } else {
        None
    }
}

/// Math shortcuts.
pub open spec fn math_pattern(p: Seq<char>) -> Option<(Seq<char>, Seq<char>)> {
    if p == "deg"@ || p == "degree"@ {
        Some(("\u{00B0}"@, "degree sign"@))
    } else if p == "+-"@ {
        Some(("\u{00B1}"@, "plus-minus sign"@))
    } else if p == "*"@ || p == "x"@ {
        Some(("\u{00D7}"@, "multiplication sign"@))
    } else if p == "div"@ || p == "divide"@ {
        Some(("\u{00F7}"@, "division sign"@))
    } else if p == "ne"@ || p == "!="@ {
        Some(("\u{2260}"@, "not equal to"@))
    } else if p == "lte"@ {
        Some(("\u{2264}"@, "less-than or equal to"@))
    } else if p == "gte"@ {
        Some(("\u{2265}"@, "greater-than or equal to"@))
    } else if p == "~="@ {
        Some(("\u{2248}"@, "almost equal to"@))
    } else if p == "inf"@ || p == "infinity"@ {
        Some(("\u{221E}"@, "infinity"@))
    } else if p == "sqrt"@ {
        Some(("\u{221A}"@, "square root"@))
    } else if p == "sum"@ {
        Some(("\u{2211}"@, "n-ary summation"@))
    } else if p == "prod"@ || p == "product"@ {
        Some(("\u{220F}"@, "n-ary product"@))
    } else if p == "int"@ {
        Some(("\u{222B}"@, "integral"@))
    } else if p == "partial"@ {
        Some(("\u{2202}"@, "partial differential"@))
    } else if p == "nabla"@ {
        Some(("\u{2207}"@, "nabla"@))
    } else if p == "in"@ {
        Some(("\u{2208}"@, "element of"@))
    } else if p == "notin"@ {
        Some(("\u{2209}"@, "not an element of"@))
    } else if p == "subset"@ {
        Some(("\u{2282}"@, "subset of"@))
    } else if p == "superset"@ {
        Some(("\u{2283}"@, "superset of"@))
    } else if p == "union"@ {
        Some(("\u{222A}"@, "union"@))
    } else if p == "intersect"@ {
        Some(("\u{2229}"@, "intersection"@))
    } else if p == "forall"@ {
        Some(("\u{2200}"@, "for all"@))
    } else if p == "exists"@ {
        Some(("\u{2203}"@, "there exists"@))
    } else if p == "emptyset"@ {
        Some(("\u{2205}"@, "empty set"@))
    } else if p == "propto"@ {
        Some(("\u{221D}"@, "proportional to"@))
    } else {
        None
    }
}

fn math_lookup(p: &Vec<char>) -> (r: Option<(&'static str, &'static str)>)
    ensures
        pair_view(r) == math_pattern(p@),
{
    if spells(p, "deg") || spells(p, "degree") {
        Some(("\u{00B0}", "degree sign"))
    } else if spells(p, "+-") {
        Some(("\u{00B1}", "plus-minus sign"))
    } else if spells(p, "*") || spells(p, "x") {
        Some(("\u{00D7}", "multiplication sign"))
    } else if spells(p, "div") || spells(p, "divide") {
        Some(("\u{00F7}", "division sign"))
    } else if spells(p, "ne") || spells(p, "!=") {
        Some(("\u{2260}", "not equal to"))
    } else if spells(p, "lte") {
        Some(("\u{2264}", "less-than or equal to"))
    } else if spells(p, "gte") {
        Some(("\u{2265}", "greater-than or equal to"))
    } else if spells(p, "~=") {
        Some(("\u{2248}", "almost equal to"))
    } else if spells(p, "inf") || spells(p, "infinity") {
        Some(("\u{221E}", "infinity"))
    } else if spells(p, "sqrt") {
        Some(("\u{221A}", "square root"))
    } else if spells(p, "sum") {
        Some(("\u{2211}", "n-ary summation"))
    } else if spells(p, "prod") || spells(p, "product") {
        Some(("\u{220F}", "n-ary product"))
    } else if spells(p, "int") {
        Some(("\u{222B}", "integral"))
    } else if spells(p, "partial") {
        Some(("\u{2202}", "partial differential"))
    } else if spells(p, "nabla") {
        Some(("\u{2207}", "nabla"))
    } else if spells(p, "in") {
        Some(("\u{2208}", "element of"))
    } else if spells(p, "notin") {
        Some(("\u{2209}", "not an element of"))
    } else if spells(p, "subset") {
        Some(("\u{2282}", "subset of"))
    } else if spells(p, "superset") {
        Some(("\u{2283}", "superset of"))
    } else if spells(p, "union") {
        Some(("\u{222A}", "union"))
    } else if spells(p, "intersect") {
        Some(("\u{2229}", "intersection"))
    } else if spells(p, "forall") {
        Some(("\u{2200}", "for all"))
    } else if spells(p, "exists") {
        Some(("\u{2203}", "there exists"))
    } else if spells(p, "emptyset") {
        Some(("\u{2205}", "empty set"))
    } else if spells(p, "propto") {
        Some(("\u{221D}", "proportional to"))
    } else {
        None
    }
}

/// Greek letters (lowercase) shortcuts.
pub open spec fn greek_lower_pattern(p: Seq<char>) -> Option<(Seq<char>, Seq<char>)> {
    if p == "alpha"@ {
        Some(("\u{03B1}"@, "greek small letter alpha"@))
    } else if p == "beta"@ {
        Some(("\u{03B2}"@, "greek small letter beta"@))
    } else if p == "gamma"@ {
        Some(("\u{03B3}"@, "greek small letter gamma"@))
    } else if p == "delta"@ {
        Some(("\u{03B4}"@, "greek small letter delta"@))
    } else if p == "epsilon"@ {
        Some(("\u{03B5}"@, "greek small letter epsilon"@))
    } else if p == "zeta"@ {
        Some(("\u{03B6}"@, "greek small letter zeta"@))
    } else if p == "eta"@ {
        Some(("\u{03B7}"@, "greek small letter eta"@))
    } else if p == "theta"@ {
        Some(("\u{03B8}"@, "greek small letter theta"@))
    } else if p == "iota"@ {
        Some(("\u{03B9}"@, "greek small letter iota"@))
    } else if p == "kappa"@ {
        Some(("\u{03BA}"@, "greek small letter kappa"@))
    } else if p == "lambda"@ || p == "lamda"@ {
        Some(("\u{03BB}"@, "greek small letter lambda"@))
    } else if p == "mu"@ {
        Some(("\u{03BC}"@, "greek small letter mu"@))
    } else if p == "nu"@ {
        Some(("\u{03BD}"@, "greek small letter nu"@))
    } else if p == "xi"@ {
        Some(("\u{03BE}"@, "greek small letter xi"@))
    } else if p == "omicron"@ {
        Some(("\u{03BF}"@, "greek small letter omicron"@))
    } else if p == "pi"@ {
        Some(("\u{03C0}"@, "greek small letter pi"@))
    } else if p == "rho"@ {
        Some(("\u{03C1}"@, "greek small letter rho"@))
    } else if p == "sigma"@ {
        Some(("\u{03C3}"@, "greek small letter sigma"@))
    } else if p == "tau"@ {
        Some(("\u{03C4}"@, "greek small letter tau"@))
    } else if p == "upsilon"@ {
        Some(("\u{03C5}"@, "greek small letter upsilon"@))
    } else if p == "phi"@ {
        Some(("\u{03C6}"@, "greek small letter phi"@))
    } else if p == "chi"@ {
        Some(("\u{03C7}"@, "greek small letter chi"@))
    } else if p == "psi"@ {
        Some(("\u{03C8}"@, "greek small letter psi"@))
    } else if p == "omega"@ {
        Some(("\u{03C9}"@, "greek small letter omega"@))
    } else {
        None
    }
}

fn greek_lower_lookup(p: &Vec<char>) -> (r: Option<(&'static str, &'static str)>)
    ensures
        pair_view(r) == greek_lower_pattern(p@),
{
    if spells(p, "alpha") {
        Some(("\u{03B1}", "greek small letter alpha"))
    } else if spells(p, "beta") {
        Some(("\u{03B2}", "greek small letter beta"))
    } else if spells(p, "gamma") {
        Some(("\u{03B3}", "greek small letter gamma"))
    } else if spells(p, "delta") {
        Some(("\u{03B4}", "greek small letter delta"))
    } else if spells(p, "epsilon") {
        Some(("\u{03B5}", "greek small letter epsilon"))
    } else if spells(p, "zeta") {
        Some(("\u{03B6}", "greek small letter zeta"))
    } else if spells(p, "eta") {
        Some(("\u{03B7}", "greek small letter eta"))
    } else if spells(p, "theta") {
        Some(("\u{03B8}", "greek small letter theta"))
    } else if spells(p, "iota") {
        Some(("\u{03B9}", "greek small letter iota"))
    } else if spells(p, "kappa") {
        Some(("\u{03BA}", "greek small letter kappa"))
    } else if spells(p, "lambda") || spells(p, "lamda") {
        Some(("\u{03BB}", "greek small letter lambda"))
    } else if spells(p, "mu") {
        Some(("\u{03BC}", "greek small letter mu"))
    } else if spells(p, "nu") {
        Some(("\u{03BD}", "greek small letter nu"))
    } else if spells(p, "xi") {
        Some(("\u{03BE}", "greek small letter xi"))
    } else if spells(p, "omicron") {
        Some(("\u{03BF}", "greek small letter omicron"))
    } else if spells(p, "pi") {
        Some(("\u{03C0}", "greek small letter pi"))
    } else if spells(p, "rho") {
        Some(("\u{03C1}", "greek small letter rho"))
    } else if spells(p, "sigma") {
        Some(("\u{03C3}", "greek small letter sigma"))
    } else if spells(p, "tau") {
        Some(("\u{03C4}", "greek small letter tau"))
    } else if spells(p, "upsilon") {
        Some(("\u{03C5}", "greek small letter upsilon"))
    } else if spells(p, "phi") {
        Some(("\u{03C6}", "greek small letter phi"))
    } else if spells(p, "chi") {
        Some(("\u{03C7}", "greek small letter chi"))
    } else if spells(p, "psi") {
        Some(("\u{03C8}", "greek small letter psi"))
    } else if spells(p, "omega") {
        Some(("\u{03C9}", "greek small letter omega"))
    } else {
        None
    }
}

/// Greek letters (uppercase - commonly used) shortcuts.
pub open spec fn greek_upper_pattern(p: Seq<char>) -> Option<(Seq<char>, Seq<char>)> {
    if p == "Alpha"@ {
        Some(("\u{0391}"@, "greek capital letter alpha"@))
    } else if p == "Beta"@ {
        Some(("\u{0392}"@, "greek capital letter beta"@))
    } else if p == "Gamma"@ {
        Some(("\u{0393}"@, "greek capital letter gamma"@))
    } else if p == "Delta"@ {
        Some(("\u{0394}"@, "greek capital letter delta"@))
    } else if p == "Theta"@ {
        Some(("\u{0398}"@, "greek capital letter theta"@))
    } else if p == "Lambda"@ || p == "Lamda"@ {
        Some(("\u{039B}"@, "greek capital letter lambda"@))
    } else if p == "Pi"@ {
        Some(("\u{03A0}"@, "greek capital letter pi"@))
    } else if p == "Sigma"@ {
        Some(("\u{03A3}"@, "greek capital letter sigma"@))
    } else if p == "Phi"@ {
        Some(("\u{03A6}"@, "greek capital letter phi"@))
    } else if p == "Psi"@ {
        Some(("\u{03A8}"@, "greek capital letter psi"@))
    } else if p == "Omega"@ {
        Some(("\u{03A9}"@, "greek capital letter omega"@))
    } else {
        None
    }
}

fn greek_upper_lookup(p: &Vec<char>) -> (r: Option<(&'static str, &'static str)>)
    ensures
        pair_view(r) == greek_upper_pattern(p@),
{
    if spells(p, "Alpha") {
        Some(("\u{0391}", "greek capital letter alpha"))
    } else if spells(p, "Beta") {
        Some(("\u{0392}", "greek capital letter beta"))
    } else if spells(p, "Gamma") {
        Some(("\u{0393}", "greek capital letter gamma"))
    } else if spells(p, "Delta") {
        Some(("\u{0394}", "greek capital letter delta"))
    } else if spells(p, "Theta") {
        Some(("\u{0398}", "greek capital letter theta"))
    } else if spells(p, "Lambda") || spells(p, "Lamda") {
        Some(("\u{039B}", "greek capital letter lambda"))
    } else if spells(p, "Pi") {
        Some(("\u{03A0}", "greek capital letter pi"))
    } else if spells(p, "Sigma") {
        Some(("\u{03A3}", "greek capital letter sigma"))
    } else if spells(p, "Phi") {
        Some(("\u{03A6}", "greek capital letter phi"))
    } else if spells(p, "Psi") {
        Some(("\u{03A8}", "greek capital letter psi"))
    } else if spells(p, "Omega") {
        Some(("\u{03A9}", "greek capital letter omega"))
    } else {
        None
    }
}

/// Punctuation and symbols shortcuts.
pub open spec fn mark_pattern(p: Seq<char>) -> Option<(Seq<char>, Seq<char>)> {
    if p == "section"@ || p == "sect"@ {
        Some(("\u{00A7}"@, "section sign"@))
    } else if p == "para"@ || p == "paragraph"@ {
        Some(("\u{00B6}"@, "pilcrow sign"@))
    } else if p == "dag"@ || p == "dagger"@ {
        Some(("\u{2020}"@, "dagger"@))
    } else if p == "ddag"@ {
        Some(("\u{2021}"@, "double dagger"@))
    } else if p == "bullet"@ {
        Some(("\u{2022}"@, "bullet"@))
    } else if p == "middot"@ {
        Some(("\u{00B7}"@, "middle dot"@))
    } else {
        None
    }
}

fn mark_lookup(p: &Vec<char>) -> (r: Option<(&'static str, &'static str)>)
    ensures
        pair_view(r) == mark_pattern(p@),
{
    if spells(p, "section") || spells(p, "sect") {
        Some(("\u{00A7}", "section sign"))
    } else if spells(p, "para") || spells(p, "paragraph") {
        Some(("\u{00B6}", "pilcrow sign"))
    } else if spells(p, "dag") || spells(p, "dagger") {
        Some(("\u{2020}", "dagger"))
    } else if spells(p, "ddag") {
        Some(("\u{2021}", "double dagger"))
    } else if spells(p, "bullet") {
        Some(("\u{2022}", "bullet"))
    } else if spells(p, "middot") {
        Some(("\u{00B7}", "middle dot"))
    } else {
        None
    }
}

/// Superscripts shortcuts.
pub open spec fn superscript_pattern(p: Seq<char>) -> Option<(Seq<char>, Seq<char>)> {
    if p == "^0"@ {
        Some(("\u{2070}"@, "superscript zero"@))
    } else if p == "^1"@ {
        Some(("\u{00B9}"@, "superscript one"@))
    } else if p == "^2"@ {
        Some(("\u{00B2}"@, "superscript two"@))
    } else if p == "^3"@ {
        Some(("\u{00B3}"@, "superscript three"@))
    } else if p == "^4"@ {
        Some(("\u{2074}"@, "superscript four"@))
    } else if p == "^5"@ {
        Some(("\u{2075}"@, "superscript five"@))
    } else if p == "^6"@ {
        Some(("\u{2076}"@, "superscript six"@))
    } else if p == "^7"@ {
        Some(("\u{2077}"@, "superscript seven"@))
    } else if p == "^8"@ {
        Some(("\u{2078}"@, "superscript eight"@))
    } else if p == "^9"@ {
        Some(("\u{2079}"@, "superscript nine"@))
    } else if p == "^n"@ {
        Some(("\u{207F}"@, "superscript latin small letter n"@))
    } else {
        None
    }
}

fn superscript_lookup(p: &Vec<char>) -> (r: Option<(&'static str, &'static str)>)
    ensures
        pair_view(r) == superscript_pattern(p@),
{
    if spells(p, "^0") {
        Some(("\u{2070}", "superscript zero"))
    } else if spells(p, "^1") {
        Some(("\u{00B9}", "superscript one"))
    } else if spells(p, "^2") {
        Some(("\u{00B2}", "superscript two"))
    } else if spells(p, "^3") {
        Some(("\u{00B3}", "superscript three"))
    } else if spells(p, "^4") {
        Some(("\u{2074}", "superscript four"))
    } else if spells(p, "^5") {
        Some(("\u{2075}", "superscript five"))
    } else if spells(p, "^6") {
        Some(("\u{2076}", "superscript six"))
    } else if spells(p, "^7") {
        Some(("\u{2077}", "superscript seven"))
    } else if spells(p, "^8") {
        Some(("\u{2078}", "superscript eight"))
    } else if spells(p, "^9") {
        Some(("\u{2079}", "superscript nine"))
    } else if spells(p, "^n") {
        Some(("\u{207F}", "superscript latin small letter n"))
    } else {
        None
    }
}

/// Subscripts shortcuts.
pub open spec fn subscript_pattern(p: Seq<char>) -> Option<(Seq<char>, Seq<char>)> {
    if p == "_0"@ {
        Some(("\u{2080}"@, "subscript zero"@))
    } else if p == "_1"@ {
        Some(("\u{2081}"@, "subscript one"@))
    } else if p == "_2"@ {
        Some(("\u{2082}"@, "subscript two"@))
    } else if p == "_3"@ {
        Some(("\u{2083}"@, "subscript three"@))
    } else if p == "_4"@ {
        Some(("\u{2084}"@, "subscript four"@))
    } else if p == "_5"@ {
        Some(("\u{2085}"@, "subscript five"@))
    } else if p == "_6"@ {
        Some(("\u{2086}"@, "subscript six"@))
    } else if p == "_7"@ {
        Some(("\u{2087}"@, "subscript seven"@))
    } else if p == "_8"@ {
        Some(("\u{2088}"@, "subscript eight"@))
    } else if p == "_9"@ {
        Some(("\u{2089}"@, "subscript nine"@))
    } else {
        None
    }
}

fn subscript_lookup(p: &Vec<char>) -> (r: Option<(&'static str, &'static str)>)
    ensures
        pair_view(r) == subscript_pattern(p@),
{
    if spells(p, "_0") {
        Some(("\u{2080}", "subscript zero"))
    } else if spells(p, "_1") {
        Some(("\u{2081}", "subscript one"))
    } else if spells(p, "_2") {
        Some(("\u{2082}", "subscript two"))
    } else if spells(p, "_3") {
        Some(("\u{2083}", "subscript three"))
    } else if spells(p, "_4") {
        Some(("\u{2084}", "subscript four"))
    } else if spells(p, "_5") {
        Some(("\u{2085}", "subscript five"))
    } else if spells(p, "_6") {
        Some(("\u{2086}", "subscript six"))
    } else if spells(p, "_7") {
        Some(("\u{2087}", "subscript seven"))
    } else if spells(p, "_8") {
        Some(("\u{2088}", "subscript eight"))
    } else if spells(p, "_9") {
        Some(("\u{2089}", "subscript nine"))
    } else {
        None
    }
}

/// Miscellaneous shortcuts.
pub open spec fn misc_pattern(p: Seq<char>) -> Option<(Seq<char>, Seq<char>)> {
    if p == "star"@ {
        Some(("\u{2605}"@, "black star"@))
    } else {
        None
    }
}

fn misc_lookup(p: &Vec<char>) -> (r: Option<(&'static str, &'static str)>)
    ensures
        pair_view(r) == misc_pattern(p@),
{
    if spells(p, "star") {
        Some(("\u{2605}", "black star"))
    } else {
        None
    }
}

/// The shortcut table: the first category that knows the pattern decides.
pub open spec fn pattern_of(p: Seq<char>) -> Option<(Seq<char>, Seq<char>)> {
    if fraction_pattern(p) is Some {
        fraction_pattern(p)
    } else if symbol_pattern(p) is Some {
        symbol_pattern(p)
    } else if punctuation_pattern(p) is Some {
        punctuation_pattern(p)
    } else if arrow_pattern(p) is Some {
        arrow_pattern(p)
    } else if currency_pattern(p) is Some {
        currency_pattern(p)
    } else if math_pattern(p) is Some {
        math_pattern(p)
    } else if greek_lower_pattern(p) is Some {
        greek_lower_pattern(p)
    } else if greek_upper_pattern(p) is Some {
        greek_upper_pattern(p)
    } else if mark_pattern(p) is Some {
        mark_pattern(p)
    } else if superscript_pattern(p) is Some {
        superscript_pattern(p)
    } else if subscript_pattern(p) is Some {
        subscript_pattern(p)
    } else {
        misc_pattern(p)
    }
}

/// Looks a typing shortcut up in the built-in table, giving the character
/// and its Unicode name.
pub fn lookup_pattern(pattern: &str) -> (r: Option<(&'static str, &'static str)>)
    ensures
        pair_view(r) == pattern_of(pattern@),
{
    let p = chars_of(pattern);
    let r = fraction_lookup(&p);
    if r.is_some() {
        return r;
    }
    let r = symbol_lookup(&p);
    if r.is_some() {
        return r;
    }
    let r = punctuation_lookup(&p);
    if r.is_some() {
        return r;
    }
    let r = arrow_lookup(&p);
    if r.is_some() {
        return r;
    }
    let r = currency_lookup(&p);
    if r.is_some() {
        return r;
    }
    let r = math_lookup(&p);
    if r.is_some() {
        return r;
    }
    let r = greek_lower_lookup(&p);
    if r.is_some() {
        return r;
    }
    let r = greek_upper_lookup(&p);
    if r.is_some() {
        return r;
    }
    let r = mark_lookup(&p);
    if r.is_some() {
        return r;
    }
    let r = superscript_lookup(&p);
    if r.is_some() {
        return r;
    }
    let r = subscript_lookup(&p);
    if r.is_some() {
        return r;
    }
    let r = misc_lookup(&p);
    r
}

} // verus!
