//! The immutable catalog of vanity patterns: eight-character strings built
//! once at startup from curated four-character words, well-known literals,
//! repeated digits, repeated digit pairs and the two hexadecimal runs.
//! Fingerprints are tested against it at one fixed window.

use vstd::prelude::*;

verus! {

broadcast use vstd::string::group_string_axioms;

/// The sixteen hexadecimal digits, ascending.
pub open spec fn hex_digits() -> Seq<char> {
    seq!['0', '1', '2', '3', '4', '5', '6', '7', '8', '9', 'A', 'B', 'C', 'D', 'E', 'F']
}

/// The curated four-character words whose ordered pair concatenations seed
/// the catalog.
pub open spec fn word_list() -> Seq<Seq<char>> {
    seq![
        "DEAD"@, "BEEF"@, "CAFE"@, "BABE"@, "FACE"@, "FEED"@, "F00D"@, "FADE"@, "ACE0"@,
        "BAD0"@, "DAD0"@, "DEAF"@, "DEED"@, "B00T"@, "C0DE"@, "1337"@, "D00M"@, "B105"@,
        "CA11"@, "0000"@, "1111"@, "2222"@, "3333"@, "4444"@, "5555"@, "6666"@, "7777"@,
        "8888"@, "9999"@, "AAAA"@, "BBBB"@, "CCCC"@, "DDDD"@, "EEEE"@, "FFFF"@, "A0A0"@,
        "B1B1"@, "C2C2"@, "D3D3"@, "E4E4"@, "F5F5"@, "0F0F"@, "1E1E"@, "2D2D"@, "3C3C"@,
        "4B4B"@, "5A5A"@,
    ]
}

/// The well-known eight-character literals added directly.
pub open spec fn literal_patterns() -> Set<Seq<char>> {
    set!["DEADBEEF"@, "CAFEBABE"@, "FEEDFACE"@]
}

/// The ordered concatenation of the words at positions `i` and `j`.
pub open spec fn pair_pattern(i: int, j: int) -> Seq<char> {
    word_list()[i] + word_list()[j]
}

/// The hexadecimal digit at position `d`, repeated eight times.
pub open spec fn repeat_digit_pattern(d: int) -> Seq<char> {
    Seq::new(8, |k: int| hex_digits()[d])
}

/// The two-character pair of the digits at positions `d1` and `d2`,
/// repeated four times.
pub open spec fn repeat_pair_pattern(d1: int, d2: int) -> Seq<char> {
    Seq::new(
        8,
        |k: int|
            if k % 2 == 0 {
                hex_digits()[d1]
            } else {
                hex_digits()[d2]
            },
    )
}

/// The ascending hexadecimal run, truncated to eight characters.
pub open spec fn ascending_pattern() -> Seq<char> {
    hex_digits().take(8)
}

/// The descending hexadecimal run, truncated to eight characters.
pub open spec fn descending_pattern() -> Seq<char> {
    Seq::new(8, |k: int| hex_digits()[15 - k])
}

/// The word pair concatenations whose index pair comes before `(i, j)` in
/// lexicographic order.
pub open spec fn pair_patterns_before(i: int, j: int) -> Set<Seq<char>> {
    Set::new(
        |p: Seq<char>|
            exists|a: int, b: int|
                0 <= a < word_list().len() && 0 <= b < word_list().len() && (a < i || (a == i && b
                    < j)) && p == pair_pattern(a, b),
    )
}

/// The repeated-digit patterns for digit positions below `d`.
pub open spec fn repeat_digit_before(d: int) -> Set<Seq<char>> {
    Set::new(|p: Seq<char>| exists|e: int| 0 <= e < d && e < 16 && p == repeat_digit_pattern(e))
}

/// The repeated-pair patterns of distinct digits whose index pair comes
/// before `(d1, d2)` in lexicographic order.
pub open spec fn repeat_pair_before(d1: int, d2: int) -> Set<Seq<char>> {
    Set::new(
        |p: Seq<char>|
            exists|a: int, b: int|
                0 <= a < 16 && 0 <= b < 16 && a != b && (a < d1 || (a == d1 && b < d2)) && p
                    == repeat_pair_pattern(a, b),
    )
}

/// Every pattern of the catalog: all ordered word pairs, the direct
/// literals, the sixteen repeated digits, the repeated distinct digit pairs,
/// and the ascending and descending runs.
pub open spec fn catalog_set() -> Set<Seq<char>> {
    pair_patterns_before(word_list().len() as int, 0).union(literal_patterns()).union(
        repeat_digit_before(16),
    ).union(repeat_pair_before(16, 0)).union(set![ascending_pattern(), descending_pattern()])
}

/// The patterns of `v`, as character sequences, in order.
pub open spec fn pattern_views(v: Seq<String>) -> Seq<Seq<char>> {
    v.map_values(|s: String| s@)
}

/// The patterns of `v`, as a set of character sequences.
pub open spec fn string_set(v: Seq<String>) -> Set<Seq<char>> {
    Set::new(|p: Seq<char>| pattern_views(v).contains(p))
}

/// The outcome of testing a fingerprint against a catalog: fingerprints of
/// fewer than forty characters never match; otherwise the eight-character
/// window at offsets [24, 32) is looked up, and a hit returns that window.
pub open spec fn spec_test(cat: Set<Seq<char>>, f: Seq<char>) -> Option<Seq<char>> {
    if f.len() >= 40 && cat.contains(f.subrange(24, 32)) {
        Some(f.subrange(24, 32))
    } else {
        None
    }
}

/// Relies on String::push: appends exactly the given character.
#[verifier::external_body]
fn push_char(s: &mut String, c: char)
    ensures
        final(s)@ == old(s)@ + seq![c],
{
    s.push(c);
}

fn word_list_exec() -> (r: Vec<&'static str>)
    ensures
        r@.len() == word_list().len(),
        forall|i: int| 0 <= i < r@.len() ==> (#[trigger] r@[i])@ == word_list()[i],
{
    let mut v: Vec<&'static str> = Vec::new();
    v.push("DEAD");
    v.push("BEEF");
    v.push("CAFE");
    v.push("BABE");
    v.push("FACE");
    v.push("FEED");
    v.push("F00D");
    v.push("FADE");
    v.push("ACE0");
    v.push("BAD0");
    v.push("DAD0");
    v.push("DEAF");
    v.push("DEED");
    v.push("B00T");
    v.push("C0DE");
    v.push("1337");
    v.push("D00M");
    v.push("B105");
    v.push("CA11");
    v.push("0000");
    v.push("1111");
    v.push("2222");
    v.push("3333");
    v.push("4444");
    v.push("5555");
    v.push("6666");
    v.push("7777");
    v.push("8888");
    v.push("9999");
    v.push("AAAA");
    v.push("BBBB");
    v.push("CCCC");
    v.push("DDDD");
    v.push("EEEE");
    v.push("FFFF");
    v.push("A0A0");
    v.push("B1B1");
    v.push("C2C2");
    v.push("D3D3");
    v.push("E4E4");
    v.push("F5F5");
    v.push("0F0F");
    v.push("1E1E");
    v.push("2D2D");
    v.push("3C3C");
    v.push("4B4B");
    v.push("5A5A");
    v
}

fn hex_digits_exec() -> (r: Vec<char>)
    ensures
        r@ == hex_digits(),
{
    let mut v: Vec<char> = Vec::new();
    v.push('0');
    v.push('1');
    v.push('2');
    v.push('3');
    v.push('4');
    v.push('5');
    v.push('6');
    v.push('7');
    v.push('8');
    v.push('9');
    v.push('A');
    v.push('B');
    v.push('C');
    v.push('D');
    v.push('E');
    v.push('F');
    proof {
        assert(v@ =~= hex_digits());
    }
    v
}

fn contains_string(v: &Vec<String>, s: &String) -> (r: bool)
    ensures
        r == string_set(v@).contains(s@),
{
    let mut k: usize = 0;
    while k < v.len()
        invariant
            k <= v@.len(),
            forall|t: int| 0 <= t < k ==> (#[trigger] v@[t])@ != s@,
        decreases v@.len() - k,
    {
        let e: &String = &v[k];
        if *e == *s {
            proof {
                assert(pattern_views(v@)[k as int] == s@);
            }
            return true;
        }
        k += 1;
    }
    proof {
        assert(forall|t: int| 0 <= t < v@.len() ==> pattern_views(v@)[t] != s@);
    }
    false
}

fn push_unique(v: &mut Vec<String>, s: String)
    requires
        pattern_views(old(v)@).no_duplicates(),
    ensures
        pattern_views(final(v)@).no_duplicates(),
        string_set(final(v)@) == string_set(old(v)@).insert(s@),
{
    let ghost pre = v@;
    if !contains_string(v, &s) {
        v.push(s);
        proof {
            assert(pattern_views(v@) =~= pattern_views(pre).push(s@));
            assert forall|a: int, b: int|
                0 <= a < b < pattern_views(v@).len() implies pattern_views(v@)[a] != pattern_views(
                v@,
            )[b] by {
                if b < pre.len() {
                    assert(pattern_views(pre)[a] != pattern_views(pre)[b]);
                } else {
                    assert(!pattern_views(pre).contains(pattern_views(v@)[b]));
                }
            }
            assert forall|p: Seq<char>|
                string_set(v@).contains(p) <==> string_set(pre).insert(s@).contains(p) by {
                if pattern_views(v@).contains(p) {
                    let idx = choose|idx: int|
                        0 <= idx < pattern_views(v@).len() && pattern_views(v@)[idx] == p;
                    if idx < pre.len() {
                        assert(pattern_views(pre)[idx] == p);
                        assert(pattern_views(pre).contains(p));
                    }
                }
                if pattern_views(pre).contains(p) {
                    let idx = choose|idx: int|
                        0 <= idx < pattern_views(pre).len() && pattern_views(pre)[idx] == p;
                    assert(pattern_views(v@)[idx] == p);
                    assert(pattern_views(v@).contains(p));
                }
                if p == s@ {
                    assert(pattern_views(v@)[pre.len() as int] == p);
                    assert(pattern_views(v@).contains(p));
                }
            }
            assert(string_set(v@) =~= string_set(pre).insert(s@));
        }
    } else {
        proof {
            assert(string_set(pre).contains(s@));
            assert(string_set(v@) =~= string_set(pre).insert(s@));
        }
    }
}

fn repeated_char(c: char) -> (r: String)
    ensures
        r@ == Seq::new(8, |k: int| c),
{
    let mut s = String::new();
    let mut k: usize = 0;
    while k < 8
        invariant
            k <= 8,
            s@ =~= Seq::new(k as nat, |t: int| c),
        decreases 8 - k,
    {
        push_char(&mut s, c);
        proof {
            assert(s@ =~= Seq::new((k + 1) as nat, |t: int| c));
        }
        k += 1;
    }
    proof {
        assert(s@ =~= Seq::new(8, |t: int| c));
    }
    s
}

fn repeated_pair(c1: char, c2: char) -> (r: String)
    ensures
        r@ == Seq::new(
            8,
            |k: int|
                if k % 2 == 0 {
                    c1
                } else {
                    c2
                },
        ),
{
    let mut s = String::new();
    let mut k: usize = 0;
    while k < 4
        invariant
            k <= 4,
            s@ =~= Seq::new(
                (2 * k) as nat,
                |t: int|
                    if t % 2 == 0 {
                        c1
                    } else {
                        c2
                    },
            ),
        decreases 4 - k,
    {
        push_char(&mut s, c1);
        push_char(&mut s, c2);
        proof {
            assert(s@ =~= Seq::new(
                (2 * (k + 1)) as nat,
                |t: int|
                    if t % 2 == 0 {
                        c1
                    } else {
                        c2
                    },
            ));
        }
        k += 1;
    }
    s
}

/// The immutable set of target patterns, built once at startup and read-only
/// thereafter.
pub struct PatternCatalog {
    patterns: Vec<String>,
}

impl View for PatternCatalog {
    type V = Set<Seq<char>>;

    closed spec fn view(&self) -> Set<Seq<char>> {
        string_set(self.patterns@)
    }
}

impl PatternCatalog {
    /// No pattern is stored twice.
    pub closed spec fn wf(&self) -> bool {
        pattern_views(self.patterns@).no_duplicates()
    }

    /// Builds the catalog: every ordered pair concatenation of the curated
    /// words, the direct literals, every hexadecimal digit repeated eight
    /// times, every distinct digit pair repeated four times, and the
    /// ascending and descending runs, deduplicated.
    pub fn build() -> (r: PatternCatalog)
        ensures
            r.wf(),
            r@ == catalog_set(),
    {
        let words = word_list_exec();
        let mut patterns: Vec<String> = Vec::new();
        proof {
            assert(string_set(patterns@) =~= pair_patterns_before(0, 0));
        }
        let mut i: usize = 0;
        while i < words.len()
            invariant
                words@.len() == word_list().len(),
                forall|t: int| 0 <= t < words@.len() ==> (#[trigger] words@[t])@ == word_list()[t],
                i <= words@.len(),
                pattern_views(patterns@).no_duplicates(),
                string_set(patterns@) == pair_patterns_before(i as int, 0),
            decreases words@.len() - i,
        {
            let mut j: usize = 0;
            while j < words.len()
                invariant
                    words@.len() == word_list().len(),
                    forall|t: int|
                        0 <= t < words@.len() ==> (#[trigger] words@[t])@ == word_list()[t],
                    i < words@.len(),
                    j <= words@.len(),
                    pattern_views(patterns@).no_duplicates(),
                    string_set(patterns@) == pair_patterns_before(i as int, j as int),
                decreases words@.len() - j,
            {
                let mut s = String::from_str(words[i]);
                s.append(words[j]);
                proof {
                    assert(s@ == pair_pattern(i as int, j as int));
                }
                push_unique(&mut patterns, s);
                proof {
                    assert(string_set(patterns@) =~= pair_patterns_before(i as int, j as int + 1));
                }
                j += 1;
            }
            proof {
                assert(string_set(patterns@) =~= pair_patterns_before(i as int + 1, 0));
            }
            i += 1;
        }
        let ghost pair_set = string_set(patterns@);
        push_unique(&mut patterns, String::from_str("DEADBEEF"));
        push_unique(&mut patterns, String::from_str("CAFEBABE"));
        push_unique(&mut patterns, String::from_str("FEEDFACE"));
        proof {
            assert(string_set(patterns@) =~= pair_set.union(literal_patterns()));
        }
        let ghost with_literals = string_set(patterns@);
        let hex = hex_digits_exec();
        let mut d: usize = 0;
        while d < 16
            invariant
                hex@ == hex_digits(),
                d <= 16,
                pattern_views(patterns@).no_duplicates(),
                string_set(patterns@) == with_literals.union(repeat_digit_before(d as int)),
            decreases 16 - d,
        {
            let p = repeated_char(hex[d]);
            proof {
                assert(p@ == repeat_digit_pattern(d as int));
            }
            push_unique(&mut patterns, p);
            proof {
                assert(string_set(patterns@) =~= with_literals.union(
                    repeat_digit_before(d as int + 1),
                ));
            }
            d += 1;
        }
        let ghost with_digits = string_set(patterns@);
        let mut d1: usize = 0;
        while d1 < 16
            invariant
                hex@ == hex_digits(),
                d1 <= 16,
                pattern_views(patterns@).no_duplicates(),
                string_set(patterns@) == with_digits.union(repeat_pair_before(d1 as int, 0)),
            decreases 16 - d1,
        {
            let mut d2: usize = 0;
            while d2 < 16
                invariant
                    hex@ == hex_digits(),
                    d1 < 16,
                    d2 <= 16,
                    pattern_views(patterns@).no_duplicates(),
                    string_set(patterns@) == with_digits.union(
                        repeat_pair_before(d1 as int, d2 as int),
                    ),
                decreases 16 - d2,
            {
                if d1 != d2 {
                    let p = repeated_pair(hex[d1], hex[d2]);
                    proof {
                        assert(p@ == repeat_pair_pattern(d1 as int, d2 as int));
                    }
                    push_unique(&mut patterns, p);
                }
                proof {
                    assert(string_set(patterns@) =~= with_digits.union(
                        repeat_pair_before(d1 as int, d2 as int + 1),
                    ));
                }
                d2 += 1;
            }
            proof {
                assert(string_set(patterns@) =~= with_digits.union(
                    repeat_pair_before(d1 as int + 1, 0),
                ));
            }
            d1 += 1;
        }
        let ghost with_pairs = string_set(patterns@);
        let asc = String::from_str("01234567");
        let desc = String::from_str("FEDCBA98");
        proof {
            reveal_strlit("01234567");
            reveal_strlit("FEDCBA98");
            assert(asc@ =~= ascending_pattern());
            assert(desc@ =~= descending_pattern());
        }
        push_unique(&mut patterns, asc);
        push_unique(&mut patterns, desc);
        proof {
            assert(string_set(patterns@) =~= with_pairs.union(
                set![ascending_pattern(), descending_pattern()],
            ));
            assert(string_set(patterns@) =~= catalog_set());
        }
        PatternCatalog { patterns }
    }

    /// Tests one fingerprint against the catalog. Patterns are matched only
    /// at the fixed window of character offsets [24, 32); fingerprints of
    /// fewer than forty characters never match.
    pub fn test(&self, fingerprint: &str) -> (r: Option<String>)
        ensures
            match r {
                Some(p) => spec_test(self@, fingerprint@) == Some(p@),
                None => spec_test(self@, fingerprint@) is None,
            },
    {
        let n = fingerprint.unicode_len();
        if n >= 40 {
            let window = fingerprint.substring_char(24, 32);
            let window_string = String::from_str(window);
            if contains_string(&self.patterns, &window_string) {
                return Some(window_string);
            }
        }
        None
    }

    /// One copy of every stored pattern, for enumeration.
    pub fn to_vec(&self) -> (r: Vec<String>)
        ensures
            string_set(r@) == self@,
            self.wf() ==> pattern_views(r@).no_duplicates(),
    {
        let mut out: Vec<String> = Vec::new();
        let mut k: usize = 0;
        while k < self.patterns.len()
            invariant
                k <= self.patterns@.len(),
                out@ =~= self.patterns@.take(k as int),
            decreases self.patterns@.len() - k,
        {
            out.push(self.patterns[k].clone());
            k += 1;
        }
        proof {
            assert(out@ =~= self.patterns@);
        }
        out
    }
}

/// Building is deterministic: any two built catalogs hold the same pattern
/// set, in one process or across processes.
pub proof fn lemma_build_deterministic(a: PatternCatalog, b: PatternCatalog)
    requires
        a@ == catalog_set(),
        b@ == catalog_set(),
    ensures
        a@ == b@,
{
}

/// A test returns a pattern exactly when the fingerprint has at least forty
/// characters and its window at offsets [24, 32) is in the catalog, and the
/// pattern returned is that window; every other fingerprint returns nothing.
pub proof fn lemma_test_characterization(cat: Set<Seq<char>>, f: Seq<char>)
    ensures
        spec_test(cat, f) is Some <==> (f.len() >= 40 && cat.contains(f.subrange(24, 32))),
        spec_test(cat, f) is Some ==> spec_test(cat, f)->Some_0 == f.subrange(24, 32),
{
}

} // verus!
