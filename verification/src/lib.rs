use vstd::prelude::*;

pub mod chunk;
pub mod chunk_pool;
pub mod chunk_slot;
pub mod crafting_recipes;
pub mod difficulty;
pub mod direction;
pub mod entity;
pub mod entity_action_state;
pub mod entity_type;
pub mod error;
pub mod file_reader;
pub mod file_writer;
pub mod formatted_file_reader;
pub mod formatted_file_writer;
pub mod game_key;
pub mod gui_rect;
pub mod inventory;
pub mod item;
pub mod item_category;
pub mod item_drop;
pub mod namespace;
pub mod namespace_name;
pub mod parse;
pub(crate) mod util;
pub mod world_overview;
pub mod worldgen;
pub mod texture;
pub mod tile;
pub mod tile_stack;
pub mod tile_movement_type;

verus! {

/// Characters that are not safe in a file name on common systems.
pub open spec fn spec_unsafe_filename_char(c: char) -> bool {
    ||| c == '/'
    ||| c == '\\'
    ||| c == '<'
    ||| c == '>'
    ||| c == ':'
    ||| c == '\''
    ||| c == '|'
    ||| c == '?'
    ||| c == '*'
    ||| c == '.'
    ||| c == '~'
    ||| c == '#'
    ||| c == '%'
    ||| c == '&'
    ||| c == '+'
    ||| c == '-'
    ||| c == '{'
    ||| c == '}'
    ||| c == '@'
    ||| c == '"'
    ||| c == '!'
    ||| c == '`'
    ||| c == '='
}

/// A character with the unsafe ones replaced by an underscore.
pub open spec fn spec_safe_filename_char(c: char) -> char {
    if spec_unsafe_filename_char(c) {
        '_'
    } else {
        c
    }
}

/// An uppercase ASCII letter lowered; anything else unchanged.
pub open spec fn spec_ascii_lower(c: char) -> char {
    if c == 'A' { 'a' } else if c == 'B' { 'b' } else if c == 'C' { 'c' } else if c == 'D' { 'd' }
    else if c == 'E' { 'e' } else if c == 'F' { 'f' } else if c == 'G' { 'g' }
    else if c == 'H' { 'h' } else if c == 'I' { 'i' } else if c == 'J' { 'j' }
    else if c == 'K' { 'k' } else if c == 'L' { 'l' } else if c == 'M' { 'm' }
    else if c == 'N' { 'n' } else if c == 'O' { 'o' } else if c == 'P' { 'p' }
    else if c == 'Q' { 'q' } else if c == 'R' { 'r' } else if c == 'S' { 's' }
    else if c == 'T' { 't' } else if c == 'U' { 'u' } else if c == 'V' { 'v' }
    else if c == 'W' { 'w' } else if c == 'X' { 'x' } else if c == 'Y' { 'y' }
    else if c == 'Z' { 'z' } else { c }
}

/// The name is, lowered, one of the file names that some systems reserve.
pub open spec fn spec_reserved_filename(s: Seq<char>) -> bool {
    let lowered = s.map_values(|c| spec_ascii_lower(c));
    ||| lowered == "con"@
    ||| lowered == "prn"@
    ||| lowered == "aux"@
    ||| lowered == "nul"@
    ||| lowered == "com1"@
    ||| lowered == "com2"@
    ||| lowered == "com3"@
    ||| lowered == "com4"@
    ||| lowered == "com5"@
    ||| lowered == "com6"@
    ||| lowered == "com7"@
    ||| lowered == "com8"@
    ||| lowered == "com9"@
    ||| lowered == "lpt1"@
    ||| lowered == "lpt2"@
    ||| lowered == "lpt3"@
    ||| lowered == "lpt4"@
    ||| lowered == "lpt5"@
    ||| lowered == "lpt6"@
    ||| lowered == "lpt7"@
    ||| lowered == "lpt8"@
    ||| lowered == "lpt9"@
}

/// The file-safe form of a world name: unsafe characters replaced by
/// underscores, and a trailing underscore added when the result is a name
/// that some systems reserve.
pub open spec fn spec_validated_filename(s: Seq<char>) -> Seq<char> {
    let mapped = s.map_values(|c| spec_safe_filename_char(c));
    if spec_reserved_filename(mapped) {
        mapped.push('_')
    } else {
        mapped
    }
}

/// Relies on String::push: it appends exactly the one character.
#[verifier::external_body]
pub(crate) fn string_push_char(s: &mut String, c: char)
    ensures
        final(s)@ == old(s)@.push(c),
{
    s.push(c);
}

/// Turn a world name into a file-safe folder name: unsafe characters
/// become underscores, and a name that some systems reserve gets a
/// trailing underscore.
#[verifier::loop_isolation(false)]
pub fn validate_filename(name: String) -> (r: String)
    ensures
        r@ == spec_validated_filename(name@),
{
    let n = vstd::string::StrSliceExecFns::unicode_len(name.as_str());
    let mut out = String::new();
    let mut i: usize = 0;
    proof {
        assert(out@ =~= name@.map_values(|c| spec_safe_filename_char(c)).take(0));
    }
    while i < n
        invariant
            0 <= i <= n,
            n == name@.len(),
            out@ == name@.map_values(|c| spec_safe_filename_char(c)).take(i as int),
        decreases n - i,
    {
        let c = vstd::string::StrSliceExecFns::get_char(name.as_str(), i);
        let mapped = if c == '/' || c == '\\' || c == '<' || c == '>' || c == ':' || c == '\''
            || c == '|' || c == '?' || c == '*' || c == '.' || c == '~' || c == '#' || c == '%'
            || c == '&' || c == '+' || c == '-' || c == '{' || c == '}' || c == '@' || c == '"'
            || c == '!' || c == '`' || c == '=' {
            '_'
        } else {
            c
        };
        string_push_char(&mut out, mapped);
        proof {
            assert(out@ =~= name@.map_values(|c2| spec_safe_filename_char(c2)).take(i as int + 1));
        }
        i = i + 1;
    }
    proof {
        assert(name@.map_values(|c| spec_safe_filename_char(c)).take(name@.len() as int)
            =~= name@.map_values(|c| spec_safe_filename_char(c)));
    }
    let mut lowered = String::new();
    let mut k: usize = 0;
    proof {
        assert(lowered@ =~= out@.map_values(|c| spec_ascii_lower(c)).take(0));
    }
    let m = vstd::string::StrSliceExecFns::unicode_len(out.as_str());
    proof {
        assert(m == out@.len());
    }
    while k < m
        invariant
            0 <= k <= m,
            m == out@.len(),
            out@ == name@.map_values(|c| spec_safe_filename_char(c)),
            lowered@ == out@.map_values(|c| spec_ascii_lower(c)).take(k as int),
        decreases m - k,
    {
        let c = vstd::string::StrSliceExecFns::get_char(out.as_str(), k);
        let low = if c == 'A' { 'a' } else if c == 'B' { 'b' } else if c == 'C' { 'c' }
            else if c == 'D' { 'd' } else if c == 'E' { 'e' } else if c == 'F' { 'f' }
            else if c == 'G' { 'g' } else if c == 'H' { 'h' } else if c == 'I' { 'i' }
            else if c == 'J' { 'j' } else if c == 'K' { 'k' } else if c == 'L' { 'l' }
            else if c == 'M' { 'm' } else if c == 'N' { 'n' } else if c == 'O' { 'o' }
            else if c == 'P' { 'p' } else if c == 'Q' { 'q' } else if c == 'R' { 'r' }
            else if c == 'S' { 's' } else if c == 'T' { 't' } else if c == 'U' { 'u' }
            else if c == 'V' { 'v' } else if c == 'W' { 'w' } else if c == 'X' { 'x' }
            else if c == 'Y' { 'y' } else if c == 'Z' { 'z' } else { c };
        string_push_char(&mut lowered, low);
        proof {
            assert(lowered@ =~= out@.map_values(|c2| spec_ascii_lower(c2)).take(k as int + 1));
        }
        k = k + 1;
    }
    proof {
        assert(out@.map_values(|c| spec_ascii_lower(c)).take(out@.len() as int) =~= out@.map_values(
            |c| spec_ascii_lower(c),
        ));
    }
    let reserved = crate::util::string_eq_lit(&lowered, "con") || crate::util::string_eq_lit(
        &lowered,
        "prn",
    ) || crate::util::string_eq_lit(&lowered, "aux") || crate::util::string_eq_lit(&lowered, "nul")
        || crate::util::string_eq_lit(&lowered, "com1") || crate::util::string_eq_lit(
        &lowered,
        "com2",
    ) || crate::util::string_eq_lit(&lowered, "com3") || crate::util::string_eq_lit(
        &lowered,
        "com4",
    ) || crate::util::string_eq_lit(&lowered, "com5") || crate::util::string_eq_lit(
        &lowered,
        "com6",
    ) || crate::util::string_eq_lit(&lowered, "com7") || crate::util::string_eq_lit(
        &lowered,
        "com8",
    ) || crate::util::string_eq_lit(&lowered, "com9") || crate::util::string_eq_lit(
        &lowered,
        "lpt1",
    ) || crate::util::string_eq_lit(&lowered, "lpt2") || crate::util::string_eq_lit(
        &lowered,
        "lpt3",
    ) || crate::util::string_eq_lit(&lowered, "lpt4") || crate::util::string_eq_lit(
        &lowered,
        "lpt5",
    ) || crate::util::string_eq_lit(&lowered, "lpt6") || crate::util::string_eq_lit(
        &lowered,
        "lpt7",
    ) || crate::util::string_eq_lit(&lowered, "lpt8") || crate::util::string_eq_lit(
        &lowered,
        "lpt9",
    );
    let mut out2 = out;
    if reserved {
        string_push_char(&mut out2, '_');
    }
    out2
}

} // verus!
