//! The opening book: an immutable index from position hashes to
//! weight-ordered candidate moves, decoded from a compact binary asset.
//!
//! The asset is a flat sequence of 16-byte records: an 8-byte big-endian
//! position hash, a 2-byte big-endian packed move, a 2-byte big-endian
//! weight, and 4 bytes of padding. The packed move holds the destination
//! square in bits 0..6, the origin square in bits 6..12 and a promotion code
//! in bits 12..15 (0 none, 1 knight, 2 bishop, 3 rook, 4 queen).

use std::collections::HashMap;
use vstd::multiset::Multiset;
use vstd::prelude::*;
use vstd::string::StrSliceExecFns;
use vstd::string::StringExecFns;

verus! {

broadcast use vstd::std_specs::hash::group_hash_axioms, vstd::seq_lib::group_to_multiset_ensures;

/// The file letter of square index `idx`: files a..h are the low three bits.
pub open spec fn file_char(f: int) -> char {
    if f == 0 {
        'a'
    } else if f == 1 {
        'b'
    } else if f == 2 {
        'c'
    } else if f == 3 {
        'd'
    } else if f == 4 {
        'e'
    } else if f == 5 {
        'f'
    } else if f == 6 {
        'g'
    } else {
        'h'
    }
}

/// The rank digit of square index `idx`: ranks 1..8 are the high three bits.
pub open spec fn rank_char(r: int) -> char {
    if r == 0 {
        '1'
    } else if r == 1 {
        '2'
    } else if r == 2 {
        '3'
    } else if r == 3 {
        '4'
    } else if r == 4 {
        '5'
    } else if r == 5 {
        '6'
    } else if r == 6 {
        '7'
    } else {
        '8'
    }
}

/// The algebraic coordinate of square index `idx`, counted as
/// `rank * 8 + file` with files innermost: 0 is a1, 7 is h1, 8 is a2,
/// 63 is h8.
pub open spec fn square_chars(idx: int) -> Seq<char>
    recommends
        0 <= idx < 64,
{
    seq![file_char(idx % 8), rank_char(idx / 8)]
}

/// The algebraic coordinate of square index `index`.
pub fn square_name(index: u8) -> (r: String)
    requires
        index < 64,
    ensures
        r@ == square_chars(index as int),
{
    let file: &str = match index % 8 {
        0 => "a",
        1 => "b",
        2 => "c",
        3 => "d",
        4 => "e",
        5 => "f",
        6 => "g",
        _ => "h",
    };
    let rank: &str = match index / 8 {
        0 => "1",
        1 => "2",
        2 => "3",
        3 => "4",
        4 => "5",
        5 => "6",
        6 => "7",
        _ => "8",
    };
    proof {
        reveal_strlit("a");
        reveal_strlit("b");
        reveal_strlit("c");
        reveal_strlit("d");
        reveal_strlit("e");
        reveal_strlit("f");
        reveal_strlit("g");
        reveal_strlit("h");
        reveal_strlit("1");
        reveal_strlit("2");
        reveal_strlit("3");
        reveal_strlit("4");
        reveal_strlit("5");
        reveal_strlit("6");
        reveal_strlit("7");
        reveal_strlit("8");
    }
    let mut s = file.to_owned();
    s.append(rank);
    assert(s@ =~= square_chars(index as int));
    s
}

/// Destination square of a packed move.
pub open spec fn move_to(raw: u16) -> u16 {
    raw & 0x3f
}

/// Origin square of a packed move.
pub open spec fn move_from(raw: u16) -> u16 {
    (raw >> 6) & 0x3f
}

/// Promotion code of a packed move.
pub open spec fn move_promo(raw: u16) -> u16 {
    (raw >> 12) & 7
}

/// The letter a promotion code appends to the rendered move.
pub open spec fn promo_chars(code: u16) -> Seq<char> {
    if code == 1 {
        seq!['n']
    } else if code == 2 {
        seq!['b']
    } else if code == 3 {
        seq!['r']
    } else if code == 4 {
        seq!['q']
    } else {
        Seq::empty()
    }
}

/// A packed move rendered as origin, destination, promotion letter.
pub open spec fn move_chars(raw: u16) -> Seq<char> {
    square_chars(move_from(raw) as int) + square_chars(move_to(raw) as int) + promo_chars(
        move_promo(raw),
    )
}

/// Renders a packed move, e.g. `e2e4` or `a7a8q`.
pub fn decode_move(raw: u16) -> (r: String)
    requires
        move_promo(raw) <= 4,
    ensures
        r@ == move_chars(raw),
{
    let to = raw & 0x3f;
    let from = (raw >> 6) & 0x3f;
    let promo = (raw >> 12) & 7;
    proof {
        assert(raw & 0x3f < 64 && (raw >> 6) & 0x3f < 64 && (raw >> 12) & 7 < 8) by (bit_vector);
    }
    let mut s = square_name(from as u8);
    let dest = square_name(to as u8);
    s.append(dest.as_str());
    let promo_str: &str = match promo {
        0 => "",
        1 => "n",
        2 => "b",
        3 => "r",
        _ => "q",
    };
    proof {
        reveal_strlit("");
        reveal_strlit("n");
        reveal_strlit("b");
        reveal_strlit("r");
        reveal_strlit("q");
    }
    s.append(promo_str);
    assert(s@ =~= move_chars(raw));
    s
}

/// The big-endian 16-bit value at offset `i`.
pub open spec fn be_u16_at(s: Seq<u8>, i: int) -> u16
    recommends
        0 <= i,
        i + 2 <= s.len(),
{
    (s[i] * 0x100 + s[i + 1]) as u16
}

/// The big-endian 64-bit value at offset `i`.
pub open spec fn be_u64_at(s: Seq<u8>, i: int) -> u64
    recommends
        0 <= i,
        i + 8 <= s.len(),
{
    (s[i] * 0x100_0000_0000_0000 + s[i + 1] * 0x1_0000_0000_0000 + s[i + 2] * 0x100_0000_0000 + s[i
        + 3] * 0x1_0000_0000 + s[i + 4] * 0x100_0000 + s[i + 5] * 0x1_0000 + s[i + 6] * 0x100 + s[i
        + 7]) as u64
}

fn read_u16_be(bytes: &[u8], i: usize) -> (r: u16)
    requires
        i + 2 <= bytes@.len(),
    ensures
        r == be_u16_at(bytes@, i as int),
{
    bytes[i] as u16 * 0x100 + bytes[i + 1] as u16
}

fn read_u64_be(bytes: &[u8], i: usize) -> (r: u64)
    requires
        i + 8 <= bytes@.len(),
    ensures
        r == be_u64_at(bytes@, i as int),
{
    bytes[i] as u64 * 0x100_0000_0000_0000 + bytes[i + 1] as u64 * 0x1_0000_0000_0000 + bytes[i
        + 2] as u64 * 0x100_0000_0000 + bytes[i + 3] as u64 * 0x1_0000_0000 + bytes[i + 4] as u64
        * 0x100_0000 + bytes[i + 5] as u64 * 0x1_0000 + bytes[i + 6] as u64 * 0x100 + bytes[i
        + 7] as u64
}

/// How many whole records the asset holds.
pub open spec fn num_records(s: Seq<u8>) -> int {
    s.len() as int / 16
}

/// The position hash of record `k`.
pub open spec fn rec_hash(s: Seq<u8>, k: int) -> u64 {
    be_u64_at(s, 16 * k)
}

/// The packed move of record `k`.
pub open spec fn rec_raw(s: Seq<u8>, k: int) -> u16 {
    be_u16_at(s, 16 * k + 8)
}

/// The weight of record `k`.
pub open spec fn rec_weight(s: Seq<u8>, k: int) -> u16 {
    be_u16_at(s, 16 * k + 10)
}

/// A well-formed asset: whole records only, every promotion code meaningful.
pub open spec fn valid_book(s: Seq<u8>) -> bool {
    &&& s.len() % 16 == 0
    &&& forall|k: int| 0 <= k < num_records(s) ==> move_promo(#[trigger] rec_raw(s, k)) <= 4
}

/// The rendered moves and weights of the first `upto` records whose hash
/// is `h`, as a multiset: the records of one hash accumulate, in no
/// particular order.
pub open spec fn book_moves(s: Seq<u8>, h: u64, upto: int) -> Multiset<(Seq<char>, u16)>
    decreases upto,
{
    if upto <= 0 {
        Multiset::empty()
    } else if rec_hash(s, upto - 1) == h {
        book_moves(s, h, upto - 1).insert(
            (move_chars(rec_raw(s, upto - 1)), rec_weight(s, upto - 1)),
        )
    } else {
        book_moves(s, h, upto - 1)
    }
}

/// Checks that a binary asset is well formed before the book decodes it.
pub fn check_book(bytes: &[u8]) -> (r: bool)
    ensures
        r == valid_book(bytes@),
{
    if bytes.len() % 16 != 0 {
        return false;
    }
    let n = bytes.len() / 16;
    let mut k: usize = 0;
    while k < n
        invariant
            bytes@.len() % 16 == 0,
            bytes@.len() <= usize::MAX,
            n == num_records(bytes@),
            k <= n,
            forall|j: int| 0 <= j < k ==> move_promo(#[trigger] rec_raw(bytes@, j)) <= 4,
        decreases n - k,
    {
        proof {
            vstd::arithmetic::div_mod::lemma_fundamental_div_mod(bytes@.len() as int, 16);
            assert(16 * k + 16 <= bytes@.len());
        }
        let raw = read_u16_be(bytes, k * 16 + 8);
        if (raw >> 12) & 7 > 4 {
            assert(move_promo(rec_raw(bytes@, k as int)) > 4);
            return false;
        }
        k += 1;
    }
    true
}

/// One candidate move of the book: its rendered token and its weight.
#[derive(Debug)]
pub struct Move {
    pub mv: String,
    pub weight: u16,
}

/// The pair a candidate move stands for in specifications.
pub open spec fn move_key(m: Move) -> (Seq<char>, u16) {
    (m.mv@, m.weight)
}

/// The moves and weights a list of candidates holds, without their order.
pub open spec fn moves_ms(ms: Seq<Move>) -> Multiset<(Seq<char>, u16)> {
    ms.map_values(|m: Move| move_key(m)).to_multiset()
}

/// Candidate lists are kept ordered by descending weight.
pub open spec fn sorted_desc(ms: Seq<Move>) -> bool {
    forall|i: int, j: int| 0 <= i <= j < ms.len() ==> #[trigger] ms[i].weight >= #[trigger] ms[j].weight
}

/// Puts `m` into a descending list, keeping it descending.
fn insert_sorted(moves: &mut Vec<Move>, m: Move)
    requires
        sorted_desc(old(moves)@),
    ensures
        sorted_desc(final(moves)@),
        final(moves)@.len() == old(moves)@.len() + 1,
        moves_ms(final(moves)@) == moves_ms(old(moves)@).insert(move_key(m)),
{
    let ghost orig = moves@;
    let mut i: usize = 0;
    while i < moves.len() && moves[i].weight >= m.weight
        invariant
            i <= moves@.len(),
            moves@ == orig,
            forall|j: int| 0 <= j < i ==> #[trigger] orig[j].weight >= m.weight,
        decreases moves@.len() - i,
    {
        i += 1;
    }
    let ghost w = m.weight;
    let ghost key = move_key(m);
    moves.insert(i, m);
    assert(sorted_desc(moves@)) by {
        assert(forall|j: int| 0 <= j < i ==> #[trigger] moves@[j].weight >= w);
        assert(forall|j: int| i < j < moves@.len() ==> #[trigger] moves@[j].weight <= w) by {
            assert(forall|j: int| i <= j < orig.len() ==> #[trigger] orig[j].weight <= w);
        }
    }
    assert(moves@.map_values(|mm: Move| move_key(mm)) =~= orig.map_values(
        |mm: Move| move_key(mm),
    ).insert(i as int, key));
}

/// The opening book: position hash to candidates, sorted by falling weight.
pub struct Openings {
    book: HashMap<u64, Vec<Move>>,
}

impl Openings {
    /// The book as a map from position hash to its ordered candidate list.
    pub closed spec fn entries(self) -> Map<u64, Seq<Move>> {
        Map::new(
            |h: u64| self.book@.contains_key(h),
            |h: u64| self.book@[h]@,
        )
    }

    /// The moves recorded for hash `h`, orderless; empty when `h` is unknown.
    pub open spec fn lookup(self, h: u64) -> Multiset<(Seq<char>, u16)> {
        if self.entries().contains_key(h) {
            moves_ms(self.entries()[h])
        } else {
            Multiset::empty()
        }
    }

    /// Every entry is a non-empty candidate list ordered by falling weight.
    pub open spec fn wf(self) -> bool {
        forall|h: u64| #[trigger]
            self.entries().contains_key(h) ==> self.entries()[h].len() >= 1 && sorted_desc(
                self.entries()[h],
            )
    }

    /// Decodes the binary asset into the in-memory book. For every hash the
    /// book then holds exactly the asset's records with that hash, ordered
    /// by descending weight.
    pub fn init(bytes: &[u8]) -> (r: Self)
        requires
            valid_book(bytes@),
        ensures
            r.wf(),
            forall|h: u64| #[trigger] r.lookup(h) == book_moves(bytes@, h, num_records(bytes@)),
            forall|h: u64| #[trigger]
                r.entries().contains_key(h) == (book_moves(bytes@, h, num_records(bytes@)).len()
                    > 0),
    {
        let mut book: HashMap<u64, Vec<Move>> = HashMap::new();
        let n = bytes.len() / 16;
        let mut k: usize = 0;
        while k < n
            invariant
                valid_book(bytes@),
                bytes@.len() <= usize::MAX,
                n == num_records(bytes@),
                k <= n,
                forall|h: u64| #[trigger] table_lookup(book@, h) == book_moves(bytes@, h, k as int),
                forall|h: u64| #[trigger]
                    book@.contains_key(h) ==> book@[h]@.len() >= 1 && sorted_desc(book@[h]@),
            decreases n - k,
        {
            proof {
                vstd::arithmetic::div_mod::lemma_fundamental_div_mod(bytes@.len() as int, 16);
                assert(16 * k + 16 <= bytes@.len());
            }
            let off = k * 16;
            let pos_hash = read_u64_be(bytes, off);
            let raw = read_u16_be(bytes, off + 8);
            let weight = read_u16_be(bytes, off + 10);
            assert(move_promo(rec_raw(bytes@, k as int)) <= 4);
            let mv = decode_move(raw);
            let m = Move { mv, weight };
            let ghost key = move_key(m);
            let ghost before = book@;
            match book.remove(&pos_hash) {
                Some(mut moves) => {
                    insert_sorted(&mut moves, m);
                    book.insert(pos_hash, moves);
                },
                None => {
                    let mut fresh: Vec<Move> = Vec::new();
                    fresh.push(m);
                    assert(fresh@.map_values(|mm: Move| move_key(mm)) =~= Seq::empty().push(key));
                    assert(moves_ms(fresh@) == Multiset::empty().insert(key));
                    book.insert(pos_hash, fresh);
                },
            }
            proof {
                assert forall|h: u64| #[trigger]
                    table_lookup(book@, h) == book_moves(bytes@, h, k + 1) by {
                    if h == pos_hash {
                        assert(table_lookup(before, h) == book_moves(bytes@, h, k as int));
                    } else {
                        assert(table_lookup(book@, h) == table_lookup(before, h));
                    }
                }
            }
            k += 1;
        }
        let r = Openings { book };
        proof {
            assert forall|h: u64| #[trigger]
                r.lookup(h) == book_moves(bytes@, h, num_records(bytes@)) by {
                assert(r.lookup(h) == table_lookup(book@, h));
            }
            assert forall|h: u64| #[trigger]
                r.entries().contains_key(h) == (book_moves(bytes@, h, num_records(bytes@)).len()
                    > 0) by {
                if r.entries().contains_key(h) {
                    let entry = book@[h]@.map_values(|mm: Move| move_key(mm));
                    assert(book@[h]@.len() >= 1);
                    assert(entry.len() >= 1);
                    assert(moves_ms(book@[h]@).len() == entry.len());
                    assert(r.lookup(h).len() >= 1);
                } else {
                    assert(r.lookup(h).len() == 0);
                }
            }
        }
        r
    }

    /// The candidates for a position hash, best first; `None` for an
    /// unknown hash.
    pub fn get_moves(&self, pos: &u64) -> (r: Option<&Vec<Move>>)
        ensures
            match r {
                Some(moves) => self.entries().contains_key(*pos) && moves@ == self.entries()[*pos],
                None => !self.entries().contains_key(*pos),
            },
    {
        self.book.get(pos)
    }
}

/// The moves a raw table records for hash `h`, orderless.
pub open spec fn table_lookup(m: Map<u64, Vec<Move>>, h: u64) -> Multiset<(Seq<char>, u16)> {
    if m.contains_key(h) {
        moves_ms(m[h]@)
    } else {
        Multiset::empty()
    }
}

} // verus!
