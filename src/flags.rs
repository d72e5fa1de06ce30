//! The flags that end a substitution command.
use vstd::prelude::*;
use crate::replace::ParseError;

verus! {

/// Regex compilation options, one per flag letter, and whether every match
/// is replaced. Options with no letter keep the engine's defaults.
#[derive(Debug, Clone, Copy, PartialEq, Eq, Hash)]
pub struct Flags {
    pub case_insensitive: bool,
    pub multi_line: bool,
    pub dot_matches_new_line: bool,
    pub swap_greed: bool,
    pub ignore_whitespace: bool,
    pub octal: bool,
    pub global: bool,
}

/// The letters that name a flag.
pub open spec fn is_flag_letter(c: char) -> bool {
    c == 'i' || c == 'm' || c == 's' || c == 'U' || c == 'x' || c == 'o' || c == 'g'
}

/// The letter at `i` is no flag, or was already given before it.
pub open spec fn flag_fault_at(s: Seq<char>, i: int) -> bool {
    !is_flag_letter(s[i]) || s.take(i).contains(s[i])
}

/// The error for the letter at `i`.
pub open spec fn flag_error_at(s: Seq<char>, i: int) -> ParseError {
    if !is_flag_letter(s[i]) {
        ParseError::UnrecognizedFlag(s[i])
    } else {
        ParseError::DuplicatedFlag(s[i])
    }
}

/// The flags that the letters of `s` set.
pub open spec fn flags_of(s: Seq<char>) -> Flags {
    Flags {
        case_insensitive: s.contains('i'),
        multi_line: s.contains('m'),
        dot_matches_new_line: s.contains('s'),
        swap_greed: s.contains('U'),
        ignore_whitespace: s.contains('x'),
        octal: s.contains('o'),
        global: s.contains('g'),
    }
}

/// `i` is the first letter of `s` that is unknown or repeated.
pub open spec fn first_flag_fault(s: Seq<char>, i: int) -> bool {
    0 <= i < s.len() && flag_fault_at(s, i) && forall|j: int| 0 <= j < i ==> !flag_fault_at(s, j)
}

/// What reading the flag letters `s` gives: the flags, or the error for the
/// first letter that is unknown or repeated.
pub open spec fn flags_outcome(s: Seq<char>) -> Result<Flags, ParseError> {
    if exists|i: int| first_flag_fault(s, i) {
        Err(flag_error_at(s, choose|i: int| first_flag_fault(s, i)))
    } else {
        Ok(flags_of(s))
    }
}

proof fn lemma_first_fault_unique(s: Seq<char>, i: int, k: int)
    requires
        first_flag_fault(s, i),
        first_flag_fault(s, k),
    ensures
        i == k,
{
}

impl Default for Flags {
    /// No flag set.
    fn default() -> (r: Flags)
        ensures
            r == flags_of(Seq::empty()),
    {
        Flags {
            case_insensitive: false,
            multi_line: false,
            dot_matches_new_line: false,
            swap_greed: false,
            ignore_whitespace: false,
                octal: false,
            global: false,
        }
    }
}

impl Flags {
    /// Sets a flag that was not set yet.
    pub fn set(field: &mut bool, flag_char: char) -> (r: Result<(), ParseError>)
        ensures
            *old(field) ==> r == Err::<(), ParseError>(ParseError::DuplicatedFlag(flag_char))
                && *final(field),
            !*old(field) ==> r is Ok && *final(field),
    {
        if *field {
            Err(ParseError::DuplicatedFlag(flag_char))
        } else {
            *field = true;
            Ok(())
        }
    }

    /// Reads the flag letters, each at most once.
    pub fn parse(flags_str: &str) -> (r: Result<Flags, ParseError>)
        ensures
            r == flags_outcome(flags_str@),
    {
        let s = crate::text::chars_of(flags_str);
        let mut this = Flags::default();
        let mut i: usize = 0;
        while i < s.len()
            invariant
                s@ == flags_str@,
                i <= s.len(),
                forall|j: int| 0 <= j < i ==> !flag_fault_at(s@, j),
                this == flags_of(s@.take(i as int)),
            decreases s.len() - i,
        {
            let c = s[i];
            let ghost before = s@.take(i as int);
            assert(s@.take(i + 1) == before.push(c));
            assert forall|d: char| #[trigger] before.push(c).contains(d) <==> (before.contains(d)
                || d == c) by {
                if before.push(c).contains(d) {
                    let k = choose|k: int| 0 <= k < before.len() + 1 && before.push(c)[k] == d;
                    if k < before.len() {
                        assert(before[k] == d);
                    }
                }
                if d == c {
                    assert(before.push(c)[before.len() as int] == d);
                }
                if before.contains(d) {
                    let k = choose|k: int| 0 <= k < before.len() && before[k] == d;
                    assert(before.push(c)[k] == d);
                }
            }
            let step = if c == 'i' {
                Flags::set(&mut this.case_insensitive, c)
            } else if c == 'm' {
                Flags::set(&mut this.multi_line, c)
            } else if c == 's' {
                Flags::set(&mut this.dot_matches_new_line, c)
            } else if c == 'U' {
                Flags::set(&mut this.swap_greed, c)
            } else if c == 'x' {
                Flags::set(&mut this.ignore_whitespace, c)
            } else if c == 'o' {
                Flags::set(&mut this.octal, c)
            } else if c == 'g' {
                Flags::set(&mut this.global, c)
            } else {
                Err(ParseError::UnrecognizedFlag(c))
            };
            match step {
                Err(e) => {
                    assert(first_flag_fault(s@, i as int));
                    proof {
                        let k = choose|k: int| first_flag_fault(s@, k);
                        lemma_first_fault_unique(s@, i as int, k);
                    }
                    return Err(e);
                },
                Ok(()) => {},
            }
            i = i + 1;
        }
        assert(s@.take(i as int) == s@);
        assert(!exists|k: int| first_flag_fault(s@, k));
        Ok(this)
    }
}

} // verus!
