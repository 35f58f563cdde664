//! The match predicate: a glob pattern that a line matches when some run of
//! its characters matches the whole pattern.
use vstd::prelude::*;

verus! {

#[verifier::external_type_specification]
#[verifier::external_body]
pub struct ExPattern(glob::Pattern);

/// Whether glob accepts `pattern` as a pattern.
pub uninterp spec fn glob_compiles(pattern: Seq<char>) -> bool;

/// Whether `text`, as a whole, matches the glob `pattern` (default options).
pub uninterp spec fn glob_matches(pattern: Seq<char>, text: Seq<char>) -> bool;

/// A line matches partially when some run of consecutive characters of it
/// matches the whole pattern.
pub open spec fn partial_match(pattern: Seq<char>, line: Seq<char>) -> bool {
    exists|i: int, j: int|
        0 <= i <= j <= line.len() && #[trigger] glob_matches(pattern, line.subrange(i, j))
}

/// Relies on `glob::Pattern::new`: whether it succeeds depends on the pattern
/// text alone. The error is handed back as its `Display` text.
#[verifier::external_body]
fn compile_glob(pattern: &str) -> (r: Result<glob::Pattern, String>)
    ensures
        r is Ok <==> glob_compiles(pattern@),
{
    match glob::Pattern::new(pattern) {
        Ok(p) => Ok(p),
        Err(e) => Err(format!("{}", e)),
    }
}

/// A compiled pattern together with the text it was compiled from.
pub struct Matcher {
    source: String,
    compiled: glob::Pattern,
}

impl Matcher {
    /// The text the pattern was compiled from.
    pub closed spec fn pattern(&self) -> Seq<char> {
        self.source@
    }

    /// Compiles `pattern`; on failure the error is glob's message.
    pub fn new(pattern: &str) -> (r: Result<Matcher, String>)
        ensures
            r is Ok <==> glob_compiles(pattern@),
            r matches Ok(m) ==> m.pattern() == pattern@,
    {
        match compile_glob(pattern) {
            Ok(compiled) => Ok(Matcher { source: String::from_str(pattern), compiled }),
            Err(msg) => Err(msg),
        }
    }

    /// Relies on `glob::Pattern::matches`, on the pattern compiled from
    /// `self.source` (fields are set only by `new`): whether the whole text
    /// matches depends on the pattern text and the text alone.
    #[verifier::external_body]
    fn matches_whole(&self, text: &str) -> (r: bool)
        ensures
            r == glob_matches(self.pattern(), text@),
    {
        self.compiled.matches(text)
    }

    /// Whether some run of consecutive characters of `line` matches the
    /// whole pattern.
    pub fn matches_partially(&self, line: &str) -> (r: bool)
        ensures
            r == partial_match(self.pattern(), line@),
    {
        let n = line.unicode_len();
        let mut i: usize = 0;
        loop
            invariant
                n == line@.len(),
                i <= n,
                forall|a: int, b: int|
                    0 <= a < i && a <= b <= n ==> !#[trigger] glob_matches(self.pattern(), line@.subrange(a, b)),
            ensures
                forall|a: int, b: int|
                    0 <= a <= b <= n ==> !#[trigger] glob_matches(self.pattern(), line@.subrange(a, b)),
            decreases n - i,
        {
            let mut j: usize = i;
            loop
                invariant
                    n == line@.len(),
                    i <= j <= n,
                    forall|b: int|
                        i <= b < j ==> !#[trigger] glob_matches(self.pattern(), line@.subrange(i as int, b)),
                ensures
                    forall|b: int|
                        i <= b <= n ==> !#[trigger] glob_matches(self.pattern(), line@.subrange(i as int, b)),
                decreases n - j,
            {
                let part = line.substring_char(i, j);
                if self.matches_whole(part) {
                    return true;
                }
                if j == n {
                    break;
                }
                j = j + 1;
            }
            if i == n {
                break;
            }
            i = i + 1;
        }
        assert(!partial_match(self.pattern(), line@));
        false
    }
}

} // verus!
