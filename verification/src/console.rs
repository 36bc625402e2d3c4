//! What the program reads from its console: the line typed, the option of
//! the menu, a due date and a yes-or-no answer.

use vstd::prelude::*;

verus! {

/// A line as typed, without the line ending: a final '\n' is dropped, and
/// then a final '\r'.
pub open spec fn without_line_ending(s: Seq<char>) -> Seq<char> {
    let s1 = if s.len() > 0 && s.last() == '\n' {
        s.drop_last()
    } else {
        s
    };
    if s1.len() > 0 && s1.last() == '\r' {
        s1.drop_last()
    } else {
        s1
    }
}

/// The line read, without its line ending.
pub fn trim_line_ending(line: &str) -> (res: String)
    ensures
        res@ == without_line_ending(line@),
{
    let mut n = line.unicode_len();
    if n > 0 && line.get_char(n - 1) == '\n' {
        n = n - 1;
    }
    if n > 0 && line.get_char(n - 1) == '\r' {
        n = n - 1;
    }
    let kept = line.substring_char(0, n);
    let res = String::from_str(kept);
    assert(res@ =~= without_line_ending(line@));
    res
}

/// The options of the menu.
#[derive(Debug, Clone, Copy, PartialEq, Eq, Structural)]
pub enum MenuOption {
    /// "1": write the overdue charges into the sheet.
    ListOverdue,
    /// "2": remind the charges that fell due yesterday.
    RemindYesterday,
    /// "3": remind the charges that fell due on a given date.
    RemindOnDate,
    /// Anything else.
    Invalid,
}

/// The option chosen by a line.
pub open spec fn menu_option_of(s: Seq<char>) -> MenuOption {
    if s == seq!['1'] {
        MenuOption::ListOverdue
    } else if s == seq!['2'] {
        MenuOption::RemindYesterday
    } else if s == seq!['3'] {
        MenuOption::RemindOnDate
    } else {
        MenuOption::Invalid
    }
}

/// The option chosen by a line.
pub fn parse_menu_option(s: &str) -> (o: MenuOption)
    ensures
        o == menu_option_of(s@),
{
    if s.unicode_len() != 1 {
        assert(s@ != seq!['1'] && s@ != seq!['2'] && s@ != seq!['3']);
        return MenuOption::Invalid;
    }
    let c = s.get_char(0);
    assert(s@ =~= seq![c]);
    if c == '1' {
        MenuOption::ListOverdue
    } else if c == '2' {
        MenuOption::RemindYesterday
    } else if c == '3' {
        MenuOption::RemindOnDate
    } else {
        MenuOption::Invalid
    }
}

/// The number of bytes of a character in UTF-8.
pub open spec fn utf8_len(c: char) -> nat {
    let u = c as u32;
    if u < 0x80 {
        1
    } else if u < 0x800 {
        2
    } else if u < 0x10000 {
        3
    } else {
        4
    }
}

/// The number of bytes of a text in UTF-8.
pub open spec fn byte_len(s: Seq<char>) -> nat
    decreases s.len(),
{
    if s.len() == 0 {
        0
    } else {
        byte_len(s.drop_last()) + utf8_len(s.last())
    }
}

/// The pieces of a text between its '/' characters, as `str::split('/')`
/// gives them (a text without '/' is one piece).
pub open spec fn split_slashes(s: Seq<char>) -> Seq<Seq<char>>
    decreases s.len(),
{
    if s.len() == 0 {
        seq![Seq::empty()]
    } else {
        let parts = split_slashes(s.drop_last());
        if s.last() == '/' {
            parts.push(Seq::empty())
        } else {
            parts.update(parts.len() - 1, parts.last().push(s.last()))
        }
    }
}

/// A text without '/'.
pub open spec fn slash_free(s: Seq<char>) -> bool {
    forall|i: int| 0 <= i < s.len() ==> s[i] != '/'
}

/// Three pieces written with '/' between them.
pub open spec fn date_of_parts(day: Seq<char>, month: Seq<char>, year: Seq<char>) -> Seq<char> {
    day + seq!['/'] + month + seq!['/'] + year
}

/// A text without '/' adds to the last piece of a split.
pub proof fn lemma_split_plain(x: Seq<char>, y: Seq<char>)
    requires
        slash_free(y),
    ensures
        split_slashes(x).len() >= 1,
        split_slashes(x + y) == split_slashes(x).update(
            split_slashes(x).len() - 1,
            split_slashes(x).last() + y,
        ),
    decreases y.len(),
{
    lemma_split_nonempty(x);
    if y.len() == 0 {
        assert(x + y =~= x);
        assert(split_slashes(x).last() + y =~= split_slashes(x).last());
        assert(split_slashes(x).update(split_slashes(x).len() - 1, split_slashes(x).last())
            =~= split_slashes(x));
    } else {
        let y0 = y.drop_last();
        lemma_split_plain(x, y0);
        assert((x + y).drop_last() =~= x + y0);
        assert((x + y).last() == y.last());
        let p = split_slashes(x);
        assert((p.last() + y0).push(y.last()) =~= p.last() + y);
        assert(split_slashes(x + y) =~= p.update(p.len() - 1, p.last() + y));
    }
}

pub proof fn lemma_split_nonempty(s: Seq<char>)
    ensures
        split_slashes(s).len() >= 1,
    decreases s.len(),
{
    if s.len() > 0 {
        lemma_split_nonempty(s.drop_last());
    }
}

/// Three pieces without '/', written with '/' between them, split back into
/// those pieces.
pub proof fn lemma_split_of_parts(a: Seq<char>, b: Seq<char>, c: Seq<char>)
    requires
        slash_free(a),
        slash_free(b),
        slash_free(c),
    ensures
        split_slashes(date_of_parts(a, b, c)) == seq![a, b, c],
{
    let e = Seq::<char>::empty();
    lemma_split_plain(e, a);
    assert(e + a =~= a);
    assert(split_slashes(e) =~= seq![e]);
    assert(split_slashes(a) =~= seq![a]);
    let a1 = a + seq!['/'];
    assert(a1 =~= a.push('/'));
    assert(a1.drop_last() =~= a);
    assert(split_slashes(a1) =~= seq![a, e]);
    lemma_split_plain(a1, b);
    assert(split_slashes(a1 + b) =~= seq![a, b]);
    let b1 = a1 + b + seq!['/'];
    assert(b1.drop_last() =~= a1 + b);
    assert(split_slashes(b1) =~= seq![a, b, e]);
    lemma_split_plain(b1, c);
    assert(split_slashes(b1 + c) =~= seq![a, b, c]);
    assert(date_of_parts(a, b, c) =~= b1 + c);
}

/// The pieces joined back with '/' between them.
pub open spec fn joined_by_slashes(parts: Seq<Seq<char>>) -> Seq<char>
    decreases parts.len(),
{
    if parts.len() <= 1 {
        if parts.len() == 1 {
            parts[0]
        } else {
            Seq::empty()
        }
    } else {
        joined_by_slashes(parts.drop_last()) + seq!['/'] + parts.last()
    }
}

/// A text is its pieces joined back with '/', and no piece holds a '/'.
pub proof fn lemma_split_rejoins(s: Seq<char>)
    ensures
        split_slashes(s).len() >= 1,
        joined_by_slashes(split_slashes(s)) == s,
        forall|k: int| 0 <= k < split_slashes(s).len() ==> slash_free(#[trigger] split_slashes(s)[k]),
    decreases s.len(),
{
    lemma_split_nonempty(s);
    if s.len() == 0 {
        assert(split_slashes(s) =~= seq![Seq::<char>::empty()]);
        assert(joined_by_slashes(split_slashes(s)) =~= s);
    } else {
        let t = s.drop_last();
        let c = s.last();
        lemma_split_rejoins(t);
        let p = split_slashes(t);
        let q = split_slashes(s);
        if c == '/' {
            assert(q == p.push(Seq::<char>::empty()));
            assert(q.drop_last() =~= p);
            assert(joined_by_slashes(q) =~= s);
            assert forall|k: int| 0 <= k < q.len() implies slash_free(#[trigger] q[k]) by {
                if k < p.len() {
                    assert(q[k] == p[k]);
                }
            }
        } else {
            let last = p.last().push(c);
            assert(q == p.update(p.len() - 1, last));
            if p.len() == 1 {
                assert(joined_by_slashes(p) == p[0]);
                assert(joined_by_slashes(q) == q[0]);
                assert(q[0] =~= s);
            } else {
                assert(q.drop_last() =~= p.drop_last());
                assert(joined_by_slashes(q) == joined_by_slashes(p.drop_last()) + seq!['/'] + last);
                assert(joined_by_slashes(p) == joined_by_slashes(p.drop_last()) + seq!['/'] + p.last());
                let x = joined_by_slashes(p.drop_last()) + seq!['/'];
                assert(x + last =~= (x + p.last()).push(c));
                assert(s =~= t.push(c));
                assert(joined_by_slashes(q) =~= s);
            }
            assert forall|k: int| 0 <= k < q.len() implies slash_free(#[trigger] q[k]) by {
                if k < p.len() - 1 {
                    assert(q[k] == p[k]);
                } else {
                    assert(slash_free(p[k]));
                    assert forall|i: int| 0 <= i < q[k].len() implies q[k][i] != '/' by {
                        if i < p[k].len() {
                            assert(q[k][i] == p[k][i]);
                        }
                    }
                }
            }
        }
    }
}

/// A typed date is accepted exactly when it is a day, a month and a year
/// written with '/' between them, none holding a '/', of two, two and four
/// bytes.
pub proof fn law_typed_date_shape(s: Seq<char>)
    ensures
        is_date_shaped(s) <==> exists|day: Seq<char>, month: Seq<char>, year: Seq<char>|
            #[trigger] date_of_parts(day, month, year) == s && slash_free(day) && slash_free(month)
                && slash_free(year) && byte_len(day) == 2 && byte_len(month) == 2 && byte_len(year)
                == 4,
{
    lemma_split_rejoins(s);
    let p = split_slashes(s);
    if is_date_shaped(s) {
        assert(p.drop_last().drop_last() =~= seq![p[0]]);
        assert(p.drop_last() =~= seq![p[0], p[1]]);
        assert(joined_by_slashes(seq![p[0]]) == p[0]);
        assert(joined_by_slashes(seq![p[0], p[1]]) == p[0] + seq!['/'] + p[1]);
        assert(date_of_parts(p[0], p[1], p[2]) == s);
    }
    if exists|day: Seq<char>, month: Seq<char>, year: Seq<char>|
        #[trigger] date_of_parts(day, month, year) == s && slash_free(day) && slash_free(month)
            && slash_free(year) && byte_len(day) == 2 && byte_len(month) == 2 && byte_len(year) == 4 {
        let (day, month, year) = choose|day: Seq<char>, month: Seq<char>, year: Seq<char>|
            #[trigger] date_of_parts(day, month, year) == s && slash_free(day) && slash_free(month)
                && slash_free(year) && byte_len(day) == 2 && byte_len(month) == 2 && byte_len(year)
                == 4;
        lemma_split_of_parts(day, month, year);
    }
}

/// A date typed as "dd/mm/aaaa": three pieces between slashes, of two, two
/// and four bytes.
pub open spec fn is_date_shaped(s: Seq<char>) -> bool {
    let parts = split_slashes(s);
    &&& parts.len() == 3
    &&& byte_len(parts[0]) == 2
    &&& byte_len(parts[1]) == 2
    &&& byte_len(parts[2]) == 4
}

fn char_bytes(c: char) -> (n: usize)
    ensures
        n == utf8_len(c),
{
    let u = c as u32;
    if u < 0x80 {
        1
    } else if u < 0x800 {
        2
    } else if u < 0x10000 {
        3
    } else {
        4
    }
}

/// A byte length counted up to 5: no more is needed to compare it with the
/// shape of a date.
pub open spec fn capped(n: nat) -> nat {
    if n < 5 {
        n
    } else {
        5
    }
}

/// Whether a typed date has the shape "dd/mm/aaaa".
pub fn is_valid_date_input(s: &str) -> (b: bool)
    ensures
        b == is_date_shaped(s@),
        b <==> exists|day: Seq<char>, month: Seq<char>, year: Seq<char>|
            #[trigger] date_of_parts(day, month, year) == s@ && slash_free(day) && slash_free(month)
                && slash_free(year) && byte_len(day) == 2 && byte_len(month) == 2 && byte_len(year)
                == 4,
{
    proof {
        law_typed_date_shape(s@);
    }
    let n = s.unicode_len();
    let mut lens: Vec<usize> = vec![0];
    let mut i: usize = 0;
    while i < n
        invariant
            n == s@.len(),
            i <= n,
            ({
                let parts = split_slashes(s@.take(i as int));
                &&& lens@.len() == parts.len()
                &&& 1 <= lens@.len() <= i + 1
                &&& forall|k: int|
                    0 <= k < parts.len() ==> #[trigger] lens@[k] == capped(byte_len(parts[k]))
            }),
        decreases n - i,
    {
        let c = s.get_char(i);
        let ghost prev = s@.take(i as int);
        let ghost parts = split_slashes(prev);
        proof {
            assert(s@.take(i + 1).drop_last() =~= prev);
            assert(s@.take(i + 1).last() == c);
        }
        if c == '/' {
            lens.push(0);
            proof {
                let np = split_slashes(s@.take(i + 1));
                assert(np == parts.push(Seq::<char>::empty()));
                assert forall|k: int| 0 <= k < np.len() implies #[trigger] lens@[k] == capped(
                    byte_len(np[k]),
                ) by {
                    if k < parts.len() {
                        assert(np[k] == parts[k]);
                    } else {
                        assert(np[k] == Seq::<char>::empty());
                    }
                }
            }
        } else {
            let last = lens.len() - 1;
            let b = char_bytes(c);
            let cur = lens[last];
            let next = if cur + b < 5 {
                cur + b
            } else {
                5
            };
            lens.set(last, next);
            proof {
                let np = split_slashes(s@.take(i + 1));
                let lastp = parts.last();
                assert(np == parts.update(parts.len() - 1, lastp.push(c)));
                assert(lastp.push(c).drop_last() =~= lastp);
                assert(byte_len(lastp.push(c)) == byte_len(lastp) + utf8_len(c));
                assert forall|k: int| 0 <= k < np.len() implies #[trigger] lens@[k] == capped(
                    byte_len(np[k]),
                ) by {
                    if k < parts.len() - 1 {
                        assert(np[k] == parts[k]);
                    }
                }
            }
        }
        i = i + 1;
    }
    proof {
        assert(s@.take(n as int) =~= s@);
    }
    lens.len() == 3 && lens[0] == 2 && lens[1] == 2 && lens[2] == 4
}

/// What a lower-case answer means.
#[derive(Debug, Clone, Copy, PartialEq, Eq, Structural)]
pub enum SuspensionAnswer {
    /// "s" or "sim".
    Yes,
    /// "n", "não" or "nao".
    No,
    /// Anything else, which counts as "no".
    Unrecognized,
}

/// The lower-case form of a text, as std's `str::to_lowercase` gives it.
pub uninterp spec fn lowercased(s: Seq<char>) -> Seq<char>;

/// std's `str::to_lowercase`. The contract names the result (`lowercased`);
/// the Unicode case mapping that it applies is not stated.
#[verifier::external_body]
fn to_lowercase(s: &str) -> (res: String)
    ensures
        res@ == lowercased(s@),
{
    s.to_lowercase()
}

/// What a lower-case answer means.
pub open spec fn answer_of(lower: Seq<char>) -> SuspensionAnswer {
    if lower == "s"@ || lower == "sim"@ {
        SuspensionAnswer::Yes
    } else if lower == "n"@ || lower == "não"@ || lower == "nao"@ {
        SuspensionAnswer::No
    } else {
        SuspensionAnswer::Unrecognized
    }
}

/// What a lower-case answer means.
pub fn lowercase_answer(lower: &String) -> (a: SuspensionAnswer)
    ensures
        a == answer_of(lower@),
{
    if *lower == String::from_str("s") || *lower == String::from_str("sim") {
        SuspensionAnswer::Yes
    } else if *lower == String::from_str("n") || *lower == String::from_str("não")
        || *lower == String::from_str("nao") {
        SuspensionAnswer::No
    } else {
        SuspensionAnswer::Unrecognized
    }
}

/// What an answer means, read in lower case: "yes" exactly for "s" and
/// "sim", "no" exactly for "n", "não" and "nao", and unrecognized for every
/// other text, the empty line among them; only "yes" announces the
/// suspension.
pub proof fn law_answer_meaning(lower: Seq<char>)
    ensures
        (answer_of(lower) == SuspensionAnswer::Yes) <==> (lower == seq!['s'] || lower == seq![
            's',
            'i',
            'm',
        ]),
        (answer_of(lower) == SuspensionAnswer::No) <==> (lower == seq!['n'] || lower == seq![
            'n',
            'ã',
            'o',
        ] || lower == seq!['n', 'a', 'o']),
        lower.len() == 0 ==> answer_of(lower) == SuspensionAnswer::Unrecognized,
{
    reveal_strlit("s");
    reveal_strlit("sim");
    reveal_strlit("n");
    reveal_strlit("não");
    reveal_strlit("nao");
    assert("s"@ =~= seq!['s']);
    assert("sim"@ =~= seq!['s', 'i', 'm']);
    assert("n"@ =~= seq!['n']);
    assert("não"@ =~= seq!['n', 'ã', 'o']);
    assert("nao"@ =~= seq!['n', 'a', 'o']);
    if lower[0] == 'n' {
        assert(lower != seq!['s']) by {
            assert(seq!['s'][0] == 's');
        }
        assert(lower != seq!['s', 'i', 'm']) by {
            assert(seq!['s', 'i', 'm'][0] == 's');
        }
    }
    assert(seq!['n'][0] == 'n');
    assert(seq!['n', 'ã', 'o'][0] == 'n');
    assert(seq!['n', 'a', 'o'][0] == 'n');
}

/// What the answer to "announce the suspension? S/N" means, read in lower case.
pub fn parse_suspension_answer(answer: &str) -> (a: SuspensionAnswer)
    ensures
        a == answer_of(lowercased(answer@)),
{
    let lower = to_lowercase(answer);
    lowercase_answer(&lower)
}

/// Whether the reminders announce the suspension: only on a "yes".
pub fn notifies_suspension(a: SuspensionAnswer) -> (b: bool)
    ensures
        b == (a == SuspensionAnswer::Yes),
{
    match a {
        SuspensionAnswer::Yes => true,
        _ => false,
    }
}

} // verus!
