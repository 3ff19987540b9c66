//! The rate card: the minimum per-second rate at which each instance type is
//! served.
//!
//! A card is written as text, one record per line, `instance_type:rate`, the
//! rate in base ten. Lines without a colon are ignored.

use vstd::prelude::*;
use vstd::string::*;
use crate::amount::{decimal_amount, parse_decimal, Amount};
use crate::text::{chars_of, find_char, lemma_split_step, same_text, split, strip_cr};

verus! {

/// One record of the card.
#[derive(Debug)]
pub struct RateEntry {
    pub instance_type: String,
    pub rate: Amount,
}

/// The model of a record.
pub struct RateEntryView {
    pub instance_type: Seq<char>,
    pub rate: nat,
}

impl View for RateEntry {
    type V = RateEntryView;

    open spec fn view(&self) -> RateEntryView {
        RateEntryView { instance_type: self.instance_type@, rate: self.rate@ }
    }
}

/// The records of a rate card, in the order in which the text gave them.
#[derive(Debug)]
pub struct RateCard {
    pub entries: Vec<RateEntry>,
}

impl View for RateCard {
    type V = Seq<RateEntryView>;

    open spec fn view(&self) -> Seq<RateEntryView> {
        self.entries@.map_values(|e: RateEntry| e@)
    }
}

/// A record whose rate is not a decimal number of at most 256 bits, by the
/// index of its line, counted from zero.
#[derive(Clone, Copy, Debug, PartialEq, Eq, Structural)]
pub struct RateCardError {
    pub line: usize,
}

/// What one line of the text holds.
pub enum LineView {
    /// No colon: not a record.
    Ignored,
    /// A record.
    Entry(RateEntryView),
    /// A colon, but no readable rate behind it.
    Malformed,
}

/// Reads one line: the instance type stands before the first colon, the rate
/// between the first colon and the second, or the end of the line.
pub open spec fn read_line(line: Seq<char>) -> LineView {
    let fields = split(strip_cr(line), ':');
    if fields.len() < 2 {
        LineView::Ignored
    } else {
        match decimal_amount(fields[1]) {
            Some(rate) => LineView::Entry(RateEntryView { instance_type: fields[0], rate }),
            None => LineView::Malformed,
        }
    }
}

/// Reads the lines in order: the records they hold, or the index of the
/// first malformed line.
pub open spec fn read_lines(lines: Seq<Seq<char>>) -> Result<Seq<RateEntryView>, nat>
    decreases lines.len(),
{
    if lines.len() == 0 {
        Ok(Seq::empty())
    } else {
        match read_lines(lines.drop_last()) {
            Err(i) => Err(i),
            Ok(entries) => match read_line(lines.last()) {
                LineView::Ignored => Ok(entries),
                LineView::Entry(e) => Ok(entries.push(e)),
                LineView::Malformed => Err((lines.len() - 1) as nat),
            },
        }
    }
}

/// The card that a text writes.
pub open spec fn card_of(text: Seq<char>) -> Result<Seq<RateEntryView>, nat> {
    read_lines(split(text, '\n'))
}

/// The minimum rate that a card gives an instance type: the rate of the
/// first record of that type, and one where the card has none.
pub open spec fn min_rate_of(card: Seq<RateEntryView>, instance_type: Seq<char>) -> nat
    decreases card.len(),
{
    if card.len() == 0 {
        1
    } else if card[0].instance_type == instance_type {
        card[0].rate
    } else {
        min_rate_of(card.drop_first(), instance_type)
    }
}

/// Whether a card holds a record for an instance type.
pub open spec fn lists(card: Seq<RateEntryView>, instance_type: Seq<char>) -> bool {
    exists|i: int| 0 <= i < card.len() && (#[trigger] card[i]).instance_type == instance_type
}

/// A card without a record for an instance type gives it the rate one.
pub proof fn lemma_unlisted_rate_is_one(card: Seq<RateEntryView>, instance_type: Seq<char>)
    requires
        !lists(card, instance_type),
    ensures
        min_rate_of(card, instance_type) == 1,
    decreases card.len(),
{
    if card.len() > 0 {
        assert(card[0].instance_type != instance_type);
        let rest = card.drop_first();
        assert forall|i: int| 0 <= i < rest.len() implies (#[trigger] rest[i]).instance_type
            != instance_type by {
            assert(rest[i] == card[i + 1]);
        }
        lemma_unlisted_rate_is_one(rest, instance_type);
    }
}

impl RateCard {
    /// A card without records.
    pub fn empty() -> (r: RateCard)
        ensures
            r@ == Seq::<RateEntryView>::empty(),
    {
        let r = RateCard { entries: Vec::new() };
        assert(r@ =~= Seq::<RateEntryView>::empty());
        r
    }

    /// Reads a card from its text. Fails on the first line that has a colon
    /// but no decimal rate of at most 256 bits behind it.
    pub fn parse(text: &str) -> (r: Result<RateCard, RateCardError>)
        ensures
            match r {
                Ok(card) => card_of(text@) == Ok::<Seq<RateEntryView>, nat>(card@),
                Err(e) => card_of(text@) == Err::<Seq<RateEntryView>, nat>(e.line as nat),
            },
    {
        let chars = chars_of(text);
        let n: usize = chars.len();
        let mut card = RateCard::empty();
        let mut start: usize = 0;
        let mut line_no: usize = 0;
        let ghost lines = split(text@, '\n');
        proof {
            lemma_split_step(text@, '\n');
            assert(text@.skip(0) =~= text@);
            assert(lines.skip(0) =~= lines);
        }
        loop
            invariant_except_break
                start <= n,
                line_no <= start,
                line_no < lines.len(),
                lines.skip(line_no as int) == split(text@.skip(start as int), '\n'),
                read_lines(lines.take(line_no as int)) == Ok::<Seq<RateEntryView>, nat>(card@),
            invariant
                n == chars.len(),
                chars@ == text@,
                lines == split(text@, '\n'),
            ensures
                read_lines(lines) == Ok::<Seq<RateEntryView>, nat>(card@),
            decreases n - start,
        {
            let end: usize = find_char(&chars, start, n, '\n');
            let ghost tail = text@.skip(start as int);
            let ghost line = tail.take(end - start);
            proof {
                assert(chars@.subrange(start as int, n as int) =~= tail);
                lemma_split_step(tail, '\n');
                assert(lines[line_no as int] == lines.skip(line_no as int)[0]);
                assert(lines[line_no as int] == line);
                assert(line =~= chars@.subrange(start as int, end as int));
                assert(lines.take(line_no + 1).drop_last() =~= lines.take(line_no as int));
                assert(lines.take(line_no + 1).last() == line);
            }
            let mut stop: usize = end;
            if stop > start && chars[stop - 1] == '\r' {
                stop = stop - 1;
            }
            let ghost body = strip_cr(line);
            assert(body =~= chars@.subrange(start as int, stop as int));
            let colon: usize = find_char(&chars, start, stop, ':');
            proof {
                lemma_split_step(body, ':');
            }
            if colon < stop {
                let second: usize = find_char(&chars, colon + 1, stop, ':');
                let ghost rest = body.skip(colon - start + 1);
                proof {
                    assert(rest =~= chars@.subrange(colon + 1, stop as int));
                    lemma_split_step(rest, ':');
                    assert(split(body, ':')[1] == split(body, ':').skip(1)[0]);
                    assert(split(body, ':')[1] =~= chars@.subrange(colon + 1, second as int));
                    assert(split(body, ':')[0] =~= chars@.subrange(start as int, colon as int));
                }
                let rate_text = text.substring_char(colon + 1, second);
                match parse_decimal(rate_text) {
                    Some(rate) => {
                        let name = text.substring_char(start, colon);
                        let entry = RateEntry { instance_type: name.to_owned(), rate };
                        let ghost before = card@;
                        card.entries.push(entry);
                        assert(card@ =~= before.push(entry@));
                    },
                    None => {
                        proof {
                            lemma_read_lines_prefix_error(lines, line_no as int);
                        }
                        return Err(RateCardError { line: line_no });
                    },
                }
            }
            if end == n {
                proof {
                    assert(lines.skip(line_no as int).len() == 1);
                    assert(lines.take(line_no + 1) =~= lines);
                }
                break ;
            }
            proof {
                assert(tail.skip(end - start + 1) =~= text@.skip(end + 1));
                assert(lines.skip(line_no as int).skip(1) =~= lines.skip(line_no + 1));
            }
            start = end + 1;
            line_no = line_no + 1;
        }
        Ok(card)
    }

    /// The minimum rate at which an instance type is served: the rate of the
    /// first record of that type, and one where there is none.
    pub fn min_rate_for(&self, instance_type: &str) -> (r: Amount)
        ensures
            r@ == min_rate_of(self@, instance_type@),
    {
        let mut i: usize = 0;
        assert(self@.skip(0) =~= self@);
        while i < self.entries.len()
            invariant
                i <= self.entries.len(),
                min_rate_of(self@, instance_type@) == min_rate_of(
                    self@.skip(i as int),
                    instance_type@,
                ),
            decreases self.entries.len() - i,
        {
            let ghost tail = self@.skip(i as int);
            assert(tail[0] == self.entries@[i as int]@);
            assert(tail.drop_first() =~= self@.skip(i + 1));
            if same_text(self.entries[i].instance_type.as_str(), instance_type) {
                return self.entries[i].rate;
            }
            i = i + 1;
        }
        Amount::one()
    }
}

/// A malformed line makes the whole text fail with that line's index, where
/// the lines before it read well.
proof fn lemma_read_lines_prefix_error(lines: Seq<Seq<char>>, k: int)
    requires
        0 <= k < lines.len(),
        read_lines(lines.take(k)) is Ok,
        read_line(lines[k]) is Malformed,
    ensures
        read_lines(lines) == Err::<Seq<RateEntryView>, nat>(k as nat),
    decreases lines.len(),
{
    if lines.len() == k + 1 {
        assert(lines.drop_last() =~= lines.take(k));
    } else {
        let shorter = lines.drop_last();
        assert(shorter.take(k) =~= lines.take(k));
        lemma_read_lines_prefix_error(shorter, k);
    }
}

} // verus!
