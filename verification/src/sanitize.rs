//! Undoing VRChat's sanitizing of the text users write: VRChat replaces
//! some ASCII symbols in bios, display names and status descriptions with
//! look-alike characters (mostly full-width forms), which are mapped back
//! here before a profile is answered.

use vstd::prelude::*;

verus! {

/// The character that VRChat's look-alike `c` stands for; any other
/// character stands for itself.
pub open spec fn plain_char(c: char) -> char {
    if c == '\u{FF20}' {
        '@'
    } else if c == '\u{FF03}' {
        '#'
    } else if c == '\u{FF04}' {
        '$'
    } else if c == '\u{FF05}' {
        '%'
    } else if c == '\u{FF06}' {
        '&'
    } else if c == '\u{FF1D}' {
        '='
    } else if c == '\u{FF0B}' {
        '+'
    } else if c == '\u{2044}' {
        '/'
    } else if c == '\u{FF3C}' {
        '\\'
    } else if c == '\u{037E}' {
        ';'
    } else if c == '\u{02F8}' {
        ':'
    } else if c == '\u{201A}' {
        ','
    } else if c == '\u{FF1F}' {
        '?'
    } else if c == '\u{01C3}' {
        '!'
    } else if c == '\u{FF02}' {
        '"'
    } else if c == '\u{227A}' {
        '<'
    } else if c == '\u{227B}' {
        '>'
    } else if c == '\u{2024}' {
        '.'
    } else if c == '\u{FF3E}' {
        '^'
    } else if c == '\u{FF5B}' {
        '{'
    } else if c == '\u{FF5D}' {
        '}'
    } else if c == '\u{FF3B}' {
        '['
    } else if c == '\u{FF3D}' {
        ']'
    } else if c == '\u{FF08}' {
        '('
    } else if c == '\u{FF09}' {
        ')'
    } else if c == '\u{FF5C}' {
        '|'
    } else if c == '\u{2217}' {
        '*'
    } else {
        c
    }
}

/// `s` with every look-alike character mapped back.
pub open spec fn unsanitized(s: Seq<char>) -> Seq<char> {
    s.map_values(|c: char| plain_char(c))
}

/// The text of the ASCII character a look-alike stands for, or `None` when
/// `c` is not one.
fn plain_of(c: char) -> (r: Option<&'static str>)
    ensures
        match r {
            Some(p) => p@ == seq![plain_char(c)] && plain_char(c) != c,
            None => plain_char(c) == c,
        },
{
    if c == '\u{FF20}' {
        proof {
            reveal_strlit("@");
        }
        Some("@")
    } else if c == '\u{FF03}' {
        proof {
            reveal_strlit("#");
        }
        Some("#")
    } else if c == '\u{FF04}' {
        proof {
            reveal_strlit("$");
        }
        Some("$")
    } else if c == '\u{FF05}' {
        proof {
            reveal_strlit("%");
        }
        Some("%")
    } else if c == '\u{FF06}' {
        proof {
            reveal_strlit("&");
        }
        Some("&")
    } else if c == '\u{FF1D}' {
        proof {
            reveal_strlit("=");
        }
        Some("=")
    } else if c == '\u{FF0B}' {
        proof {
            reveal_strlit("+");
        }
        Some("+")
    } else if c == '\u{2044}' {
        proof {
            reveal_strlit("/");
        }
        Some("/")
    } else if c == '\u{FF3C}' {
        proof {
            reveal_strlit("\\");
        }
        Some("\\")
    } else if c == '\u{037E}' {
        proof {
            reveal_strlit(";");
        }
        Some(";")
    } else if c == '\u{02F8}' {
        proof {
            reveal_strlit(":");
        }
        Some(":")
    } else if c == '\u{201A}' {
        proof {
            reveal_strlit(",");
        }
        Some(",")
    } else if c == '\u{FF1F}' {
        proof {
            reveal_strlit("?");
        }
        Some("?")
    } else if c == '\u{01C3}' {
        proof {
            reveal_strlit("!");
        }
        Some("!")
    } else if c == '\u{FF02}' {
        proof {
            reveal_strlit("\"");
        }
        Some("\"")
    } else if c == '\u{227A}' {
        proof {
            reveal_strlit("<");
        }
        Some("<")
    } else if c == '\u{227B}' {
        proof {
            reveal_strlit(">");
        }
        Some(">")
    } else if c == '\u{2024}' {
        proof {
            reveal_strlit(".");
        }
        Some(".")
    } else if c == '\u{FF3E}' {
        proof {
            reveal_strlit("^");
        }
        Some("^")
    } else if c == '\u{FF5B}' {
        proof {
            reveal_strlit("{");
        }
        Some("{")
    } else if c == '\u{FF5D}' {
        proof {
            reveal_strlit("}");
        }
        Some("}")
    } else if c == '\u{FF3B}' {
        proof {
            reveal_strlit("[");
        }
        Some("[")
    } else if c == '\u{FF3D}' {
        proof {
            reveal_strlit("]");
        }
        Some("]")
    } else if c == '\u{FF08}' {
        proof {
            reveal_strlit("(");
        }
        Some("(")
    } else if c == '\u{FF09}' {
        proof {
            reveal_strlit(")");
        }
        Some(")")
    } else if c == '\u{FF5C}' {
        proof {
            reveal_strlit("|");
        }
        Some("|")
    } else if c == '\u{2217}' {
        proof {
            reveal_strlit("*");
        }
        Some("*")
    } else {
        None
    }
}

/// `s` with every look-alike character mapped back.
pub fn unsanitized_text(s: &str) -> (r: String)
    ensures
        r@ == unsanitized(s@),
{
    let n = s.unicode_len();
    let mut r = String::new();
    let mut i: usize = 0;
    proof {
        assert(unsanitized(s@.take(0)) =~= Seq::<char>::empty());
    }
    while i < n
        invariant
            i <= n,
            n == s@.len(),
            r@ == unsanitized(s@.take(i as int)),
        decreases n - i,
    {
        let c = s.get_char(i);
        match plain_of(c) {
            Some(p) => r.append(p),
            None => r.append(s.substring_char(i, i + 1)),
        }
        proof {
            assert(s@.take(i + 1) =~= s@.take(i as int).push(c));
            assert(unsanitized(s@.take(i + 1)) =~= unsanitized(s@.take(i as int)).push(plain_char(c)));
            assert(s@.subrange(i as int, i + 1) =~= seq![c]);
        }
        i = i + 1;
    }
    proof {
        assert(s@.take(n as int) =~= s@);
    }
    r
}

/// One of the 27 look-alike characters VRChat puts in place of ASCII
/// symbols in the text users write.
pub open spec fn is_look_alike(c: char) -> bool {
    c == '\u{FF20}'
    || c == '\u{FF03}'
    || c == '\u{FF04}'
    || c == '\u{FF05}'
    || c == '\u{FF06}'
    || c == '\u{FF1D}'
    || c == '\u{FF0B}'
    || c == '\u{2044}'
    || c == '\u{FF3C}'
    || c == '\u{037E}'
    || c == '\u{02F8}'
    || c == '\u{201A}'
    || c == '\u{FF1F}'
    || c == '\u{01C3}'
    || c == '\u{FF02}'
    || c == '\u{227A}'
    || c == '\u{227B}'
    || c == '\u{2024}'
    || c == '\u{FF3E}'
    || c == '\u{FF5B}'
    || c == '\u{FF5D}'
    || c == '\u{FF3B}'
    || c == '\u{FF3D}'
    || c == '\u{FF08}'
    || c == '\u{FF09}'
    || c == '\u{FF5C}'
    || c == '\u{2217}'
}

/// Only VRChat's look-alikes are changed, each into an ASCII symbol; every
/// other character, a full-width one the user typed included, is kept.
pub proof fn lemma_plain_char(c: char)
    ensures
        !is_look_alike(c) ==> plain_char(c) == c,
        is_look_alike(c) ==> plain_char(c) != c && (plain_char(c) as int) < 128,
{
}

/// Text holding no look-alike is answered as it is.
pub proof fn lemma_unsanitized_keeps_text(s: Seq<char>)
    requires
        forall|i: int| 0 <= i < s.len() ==> !is_look_alike(#[trigger] s[i]),
    ensures
        unsanitized(s) == s,
{
    assert forall|i: int| 0 <= i < s.len() implies unsanitized(s)[i] == s[i] by {
        lemma_plain_char(s[i]);
    }
    assert(unsanitized(s) =~= s);
}

/// Unsanitizing keeps the length and changes a character only where it is
/// a look-alike.
pub proof fn lemma_unsanitized_pointwise(s: Seq<char>)
    ensures
        unsanitized(s).len() == s.len(),
        forall|i: int| 0 <= i < s.len() && !is_look_alike(#[trigger] s[i]) ==> unsanitized(s)[i] == s[i],
{
    assert forall|i: int| 0 <= i < s.len() && !is_look_alike(#[trigger] s[i]) implies unsanitized(s)[i] == s[i] by {
        lemma_plain_char(s[i]);
    }
}

} // verus!
