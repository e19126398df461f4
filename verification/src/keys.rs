//! The keys of the grouped views and their orders: dates, ISO weeks, issues
//! and optional epics. Text is ordered as Rust orders strings, byte by byte
//! over its UTF-8 encoding.

use crate::dates::{Date, IsoWeek};
use crate::gitlab_api::types::{Epic, Issue};
use crate::grouping::{GroupKey, Rank};
use vstd::prelude::*;
use vstd::utf8::{encode_utf8, encode_utf8_decode_utf8};

verus! {

/// The lexicographic order of byte strings: a proper prefix comes first,
/// otherwise the first byte that differs decides.
pub open spec fn bytes_precede(a: Seq<u8>, b: Seq<u8>) -> bool
    decreases a.len(),
{
    if b.len() == 0 {
        false
    } else if a.len() == 0 {
        true
    } else if a[0] != b[0] {
        a[0] < b[0]
    } else {
        bytes_precede(a.drop_first(), b.drop_first())
    }
}

/// The order of strings: that of their UTF-8 encodings.
pub open spec fn text_precedes(a: Seq<char>, b: Seq<char>) -> bool {
    bytes_precede(encode_utf8(a), encode_utf8(b))
}

/// The order of optional strings: the absent one comes first.
pub open spec fn optional_text_precedes(a: Option<Seq<char>>, b: Option<Seq<char>>) -> bool {
    match (a, b) {
        (None, None) => false,
        (None, Some(_)) => true,
        (Some(_), None) => false,
        (Some(x), Some(y)) => text_precedes(x, y),
    }
}

pub proof fn lemma_bytes_irreflexive(a: Seq<u8>)
    ensures
        !bytes_precede(a, a),
    decreases a.len(),
{
    if a.len() > 0 {
        lemma_bytes_irreflexive(a.drop_first());
    }
}

pub proof fn lemma_bytes_transitive(a: Seq<u8>, b: Seq<u8>, c: Seq<u8>)
    requires
        bytes_precede(a, b),
        bytes_precede(b, c),
    ensures
        bytes_precede(a, c),
    decreases a.len(),
{
    if a.len() > 0 && a[0] == b[0] && b[0] == c[0] {
        lemma_bytes_transitive(a.drop_first(), b.drop_first(), c.drop_first());
    }
}

pub proof fn lemma_bytes_total(a: Seq<u8>, b: Seq<u8>)
    ensures
        a == b || bytes_precede(a, b) || bytes_precede(b, a),
    decreases a.len(),
{
    if a.len() == 0 || b.len() == 0 {
        if a.len() == 0 && b.len() == 0 {
            assert(a =~= b);
        }
    } else if a[0] == b[0] {
        lemma_bytes_total(a.drop_first(), b.drop_first());
        if a.drop_first() == b.drop_first() {
            assert(a =~= seq![a[0]] + a.drop_first());
            assert(b =~= seq![b[0]] + b.drop_first());
        }
    }
}

/// The order of strings is a strict total order.
pub proof fn lemma_text_order(a: Seq<char>, b: Seq<char>, c: Seq<char>)
    ensures
        !text_precedes(a, a),
        text_precedes(a, b) && text_precedes(b, c) ==> text_precedes(a, c),
        a == b || text_precedes(a, b) || text_precedes(b, a),
{
    lemma_bytes_irreflexive(encode_utf8(a));
    if text_precedes(a, b) && text_precedes(b, c) {
        lemma_bytes_transitive(encode_utf8(a), encode_utf8(b), encode_utf8(c));
    }
    lemma_bytes_total(encode_utf8(a), encode_utf8(b));
    encode_utf8_decode_utf8(a);
    encode_utf8_decode_utf8(b);
}

/// The order of optional strings is a strict total order.
pub proof fn lemma_optional_text_order(
    a: Option<Seq<char>>,
    b: Option<Seq<char>>,
    c: Option<Seq<char>>,
)
    ensures
        !optional_text_precedes(a, a),
        optional_text_precedes(a, b) && optional_text_precedes(b, c) ==> optional_text_precedes(
            a,
            c,
        ),
        a == b || optional_text_precedes(a, b) || optional_text_precedes(b, a),
{
    match (a, b, c) {
        (Some(x), Some(y), Some(z)) => {
            lemma_text_order(x, y, z);
        },
        (Some(x), Some(y), None) => {
            lemma_text_order(x, y, y);
        },
        (Some(x), _, _) => {
            lemma_text_order(x, x, x);
        },
        _ => {},
    }
}

/// Compares two byte strings.
pub fn rank_bytes(a: &[u8], b: &[u8]) -> (r: Rank)
    ensures
        (r == Rank::Before) == bytes_precede(a@, b@),
        (r == Rank::Same) == (a@ == b@),
{
    let mut i: usize = 0;
    proof {
        assert(a@.skip(0) =~= a@);
        assert(b@.skip(0) =~= b@);
    }
    while i < a.len() && i < b.len() && a[i] == b[i]
        invariant
            i <= a.len(),
            i <= b.len(),
            bytes_precede(a@, b@) == bytes_precede(a@.skip(i as int), b@.skip(i as int)),
            (a@ == b@) == (a@.skip(i as int) == b@.skip(i as int)),
        decreases a.len() - i,
    {
        proof {
            let x = a@.skip(i as int);
            let y = b@.skip(i as int);
            assert(x.drop_first() =~= a@.skip(i + 1));
            assert(y.drop_first() =~= b@.skip(i + 1));
            if x.drop_first() == y.drop_first() {
                assert(x =~= seq![x[0]] + x.drop_first());
                assert(y =~= seq![y[0]] + y.drop_first());
            }
        }
        i = i + 1;
    }
    proof {
        let x = a@.skip(i as int);
        let y = b@.skip(i as int);
        if i == a.len() && i == b.len() {
            assert(x =~= y);
        } else if i < a.len() && i < b.len() {
            assert(x[0] != y[0]);
        } else {
            assert(x.len() != y.len());
        }
    }
    if i == a.len() {
        if i == b.len() {
            Rank::Same
        } else {
            Rank::Before
        }
    } else if i == b.len() {
        Rank::After
    } else if a[i] < b[i] {
        Rank::Before
    } else {
        Rank::After
    }
}

/// Compares two strings.
pub fn rank_text(a: &str, b: &str) -> (r: Rank)
    ensures
        (r == Rank::Before) == text_precedes(a@, b@),
        (r == Rank::Same) == (a@ == b@),
{
    proof {
        encode_utf8_decode_utf8(a@);
        encode_utf8_decode_utf8(b@);
    }
    rank_bytes(a.as_bytes(), b.as_bytes())
}

impl GroupKey for Date {
    type Model = int;

    open spec fn model(&self) -> int {
        self.spec_days()
    }

    open spec fn precedes(a: int, b: int) -> bool {
        a < b
    }

    proof fn order_laws(a: int, b: int, c: int) {
    }

    fn rank(&self, other: &Self) -> (r: Rank) {
        let a: i32 = self.days();
        let b: i32 = other.days();
        if a < b {
            Rank::Before
        } else if a == b {
            Rank::Same
        } else {
            Rank::After
        }
    }

    fn duplicate(&self) -> (r: Self) {
        *self
    }
}

impl GroupKey for IsoWeek {
    type Model = (int, int);

    open spec fn model(&self) -> (int, int) {
        (self.year as int, self.week as int)
    }

    open spec fn precedes(a: (int, int), b: (int, int)) -> bool {
        a.0 < b.0 || (a.0 == b.0 && a.1 < b.1)
    }

    proof fn order_laws(a: (int, int), b: (int, int), c: (int, int)) {
    }

    fn rank(&self, other: &Self) -> (r: Rank) {
        if self.year < other.year || (self.year == other.year && self.week < other.week) {
            Rank::Before
        } else if self.year == other.year && self.week == other.week {
            Rank::Same
        } else {
            Rank::After
        }
    }

    fn duplicate(&self) -> (r: Self) {
        *self
    }
}

/// The title of an optional epic.
pub open spec fn epic_title(epic: Option<Epic>) -> Option<Seq<char>> {
    match epic {
        Some(e) => Some(e.title@),
        None => None,
    }
}

impl GroupKey for Option<Epic> {
    type Model = Option<Seq<char>>;

    open spec fn model(&self) -> Option<Seq<char>> {
        epic_title(*self)
    }

    open spec fn precedes(a: Option<Seq<char>>, b: Option<Seq<char>>) -> bool {
        optional_text_precedes(a, b)
    }

    proof fn order_laws(a: Option<Seq<char>>, b: Option<Seq<char>>, c: Option<Seq<char>>) {
        lemma_optional_text_order(a, b, c);
    }

    fn rank(&self, other: &Self) -> (r: Rank) {
        match (self, other) {
            (None, None) => Rank::Same,
            (None, Some(_)) => Rank::Before,
            (Some(_), None) => Rank::After,
            (Some(x), Some(y)) => rank_text(x.title.as_str(), y.title.as_str()),
        }
    }

    fn duplicate(&self) -> (r: Self) {
        match self {
            Some(e) => Some(Epic { title: e.title.clone() }),
            None => None,
        }
    }
}

impl GroupKey for Issue {
    type Model = (Seq<char>, Seq<char>, Option<Seq<char>>);

    open spec fn model(&self) -> (Seq<char>, Seq<char>, Option<Seq<char>>) {
        (self.title@, self.webUrl@, epic_title(self.epic))
    }

    /// By title, then by link, then by epic.
    open spec fn precedes(
        a: (Seq<char>, Seq<char>, Option<Seq<char>>),
        b: (Seq<char>, Seq<char>, Option<Seq<char>>),
    ) -> bool {
        if a.0 != b.0 {
            text_precedes(a.0, b.0)
        } else if a.1 != b.1 {
            text_precedes(a.1, b.1)
        } else {
            optional_text_precedes(a.2, b.2)
        }
    }

    proof fn order_laws(
        a: (Seq<char>, Seq<char>, Option<Seq<char>>),
        b: (Seq<char>, Seq<char>, Option<Seq<char>>),
        c: (Seq<char>, Seq<char>, Option<Seq<char>>),
    ) {
        lemma_text_order(a.0, b.0, c.0);
        lemma_text_order(b.0, a.0, c.0);
        lemma_text_order(c.0, a.0, b.0);
        lemma_text_order(a.1, b.1, c.1);
        lemma_text_order(b.1, a.1, c.1);
        lemma_text_order(c.1, a.1, b.1);
        lemma_optional_text_order(a.2, b.2, c.2);
    }

    fn rank(&self, other: &Self) -> (r: Rank) {
        proof {
            lemma_text_order(self.title@, other.title@, other.title@);
            lemma_text_order(self.webUrl@, other.webUrl@, other.webUrl@);
        }
        match rank_text(self.title.as_str(), other.title.as_str()) {
            Rank::Same => match rank_text(self.webUrl.as_str(), other.webUrl.as_str()) {
                Rank::Same => self.epic.rank(&other.epic),
                decided => decided,
            },
            decided => decided,
        }
    }

    fn duplicate(&self) -> (r: Self) {
        Issue {
            title: self.title.clone(),
            webUrl: self.webUrl.clone(),
            epic: self.epic.duplicate(),
        }
    }
}

} // verus!
