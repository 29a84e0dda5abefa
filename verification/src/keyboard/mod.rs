use vstd::prelude::*;

mod keys;

pub use keys::{law_key_layout, matrix_row, spec_key_at, spec_key_index, CpcKey, KEY_COUNT};
use keys::{lemma_key_at_roundtrip, lemma_key_index_roundtrip};

verus! {

/// Number of rows of the keyboard matrix that can be scanned.
pub const ROW_COUNT: u8 = 10;

/// Number of pressed keys among `s`.
pub open spec fn count_pressed(s: Seq<bool>) -> nat
    decreases s.len(),
{
    if s.len() == 0 {
        0
    } else {
        count_pressed(s.drop_last()) + if s.last() { 1nat } else { 0nat }
    }
}

/// Bit `k` of `x` is set.
pub open spec fn bit_set(x: u8, k: u8) -> bool {
    (x >> k) & 1 == 1
}

/// The keyboard matrix: which of the 80 keys are held down.
pub struct Keyboard {
    pub pressed_keys: [bool; 80],
}

impl View for Keyboard {
    type V = Set<CpcKey>;

    /// The set of keys held down.
    open spec fn view(&self) -> Set<CpcKey> {
        Set::new(|k: CpcKey| self.pressed_keys@[spec_key_index(k) as int])
    }
}

impl Keyboard {
    /// Key `key` is held down.
    pub open spec fn down(&self, key: CpcKey) -> bool {
        self.pressed_keys@[spec_key_index(key) as int]
    }

    /// The key in row `row`, column `col` is held down.
    pub open spec fn down_at(&self, row: int, col: int) -> bool {
        self.pressed_keys@[row * 8 + col]
    }

    /// Key (`row`, `idx`) appears pressed through a rectangle of three held
    /// keys: some other column `c` and other row `r` (any of the ten rows) with
    /// (r, idx), (r, c) and (row, c) all down.
    pub open spec fn spec_ghosted(&self, row: int, idx: int) -> bool {
        exists|c: int, r: int|
            #![trigger self.down_at(r, idx), self.down_at(r, c), self.down_at(row, c)]
            0 <= c < 8 && c != idx && 0 <= r < 10 && r != row && self.down_at(r, idx)
                && self.down_at(r, c) && self.down_at(row, c)
    }

    /// The scanned row reports key (`row`, `idx`) as down.
    pub open spec fn spec_reads_down(&self, row: int, idx: int) -> bool {
        self.down_at(row, idx) || self.spec_ghosted(row, idx)
    }

    /// The byte a scan of row `row` gives after the first `n` keys of the
    /// row are looked at: starts at 0xFF, and each key that reads down
    /// clears its bit (key `i` is bit `7 - i`).
    pub open spec fn row_byte(&self, row: int, n: int) -> u8
        decreases n,
    {
        if n <= 0 {
            0xFF
        } else {
            let b = self.row_byte(row, n - 1);
            if self.spec_reads_down(row, n - 1) {
                b & !(1u8 << ((7 - (n - 1)) as u8))
            } else {
                b
            }
        }
    }

    /// The byte a scan of row `row` gives.
    pub open spec fn spec_read_row(&self, row: int) -> u8 {
        self.row_byte(row, 8)
    }

    pub fn new() -> (k: Self)
        ensures
            k@ == Set::<CpcKey>::empty(),
            forall|i: int| 0 <= i < 80 ==> !#[trigger] k.pressed_keys@[i],
    {
        let k = Keyboard { pressed_keys: [false; 80] };
        assert(k@ =~= Set::<CpcKey>::empty());
        k
    }

    pub fn is_pressed(&self, key: &CpcKey) -> (r: bool)
        ensures
            r == self@.contains(*key),
            r == self.down(*key),
    {
        self.pressed_keys[key.index() as usize]
    }

    pub fn press_key(&mut self, key: &CpcKey)
        ensures
            final(self)@ == old(self)@.insert(*key),
            final(self).pressed_keys@ == old(self).pressed_keys@.update(
                spec_key_index(*key) as int,
                true,
            ),
    {
        let i = key.index() as usize;
        self.pressed_keys[i] = true;
        proof {
            assert(self.pressed_keys@ =~= old(self).pressed_keys@.update(i as int, true));
            assert forall|k: CpcKey| #[trigger] self@.contains(k) == old(self)@.insert(*key).contains(k) by {
                lemma_key_index_roundtrip(k);
                lemma_key_index_roundtrip(*key);
            }
            assert(self@ =~= old(self)@.insert(*key));
        }
    }

    pub fn release_key(&mut self, key: &CpcKey)
        ensures
            final(self)@ == old(self)@.remove(*key),
            final(self).pressed_keys@ == old(self).pressed_keys@.update(
                spec_key_index(*key) as int,
                false,
            ),
    {
        let i = key.index() as usize;
        self.pressed_keys[i] = false;
        proof {
            assert(self.pressed_keys@ =~= old(self).pressed_keys@.update(i as int, false));
            assert forall|k: CpcKey| #[trigger] self@.contains(k) == old(self)@.remove(*key).contains(k) by {
                lemma_key_index_roundtrip(k);
                lemma_key_index_roundtrip(*key);
            }
            assert(self@ =~= old(self)@.remove(*key));
        }
    }

    pub fn any_key_pressed(&self) -> (r: bool)
        ensures
            r == (exists|i: int| 0 <= i < 80 && #[trigger] self.pressed_keys@[i]),
    {
        let mut i: usize = 0;
        while i < 80
            invariant
                i <= 80,
                forall|j: int| 0 <= j < i ==> !#[trigger] self.pressed_keys@[j],
            decreases 80 - i,
        {
            if self.pressed_keys[i] {
                return true;
            }
            i = i + 1;
        }
        false
    }

    pub fn pressed_keys_count(&self) -> (r: usize)
        ensures
            r == count_pressed(self.pressed_keys@),
    {
        let mut count: usize = 0;
        let mut i: usize = 0;
        while i < 80
            invariant
                i <= 80,
                count <= i,
                count == count_pressed(self.pressed_keys@.take(i as int)),
            decreases 80 - i,
        {
            proof {
                assert(self.pressed_keys@.take(i + 1).drop_last() =~= self.pressed_keys@.take(
                    i as int,
                ));
            }
            if self.pressed_keys[i] {
                count = count + 1;
            }
            i = i + 1;
        }
        proof {
            assert(self.pressed_keys@.take(80) =~= self.pressed_keys@);
        }
        count
    }

    pub fn reset(&mut self)
        ensures
            final(self)@ == Set::<CpcKey>::empty(),
            forall|i: int| 0 <= i < 80 ==> !#[trigger] final(self).pressed_keys@[i],
    {
        *self = Keyboard::new();
    }

    /// The key in row `row` at position `idx`.
    pub fn row_key(row: u8, idx: u8) -> (k: CpcKey)
        requires
            row < 10,
            idx < 8,
        ensures
            k == spec_key_at((row * 8 + idx) as u8),
            spec_key_index(k) == row * 8 + idx,
    {
        CpcKey::from_index(row * 8 + idx)
    }

    /// Key (`row`, `idx`) appears pressed through three held keys forming a
    /// rectangle with it.
    pub fn ghosted(&self, row: u8, idx: u8) -> (r: bool)
        requires
            row < 10,
            idx < 8,
        ensures
            r == self.spec_ghosted(row as int, idx as int),
    {
        let mut neighbour_idx: u8 = 0;
        while neighbour_idx < 8
            invariant
                row < 10,
                idx < 8,
                neighbour_idx <= 8,
                forall|c: int, r: int|
                    #![trigger self.down_at(r, idx as int), self.down_at(r, c), self.down_at(row as int, c)]
                    0 <= c < neighbour_idx && c != idx && 0 <= r < 10 && r != row ==> !(
                    self.down_at(r, idx as int) && self.down_at(r, c) && self.down_at(row as int, c)),
            decreases 8 - neighbour_idx,
        {
            if neighbour_idx != idx {
                let mut neighbour_row: u8 = 0;
                while neighbour_row < 10
                    invariant
                        row < 10,
                        idx < 8,
                        neighbour_idx < 8,
                        neighbour_idx != idx,
                        neighbour_row <= 10,
                        forall|c: int, r: int|
                            #![trigger self.down_at(r, idx as int), self.down_at(r, c), self.down_at(row as int, c)]
                            0 <= c < neighbour_idx && c != idx && 0 <= r < 10 && r != row ==> !(
                            self.down_at(r, idx as int) && self.down_at(r, c) && self.down_at(row as int, c)),
                        forall|r: int|
                            #![trigger self.down_at(r, idx as int), self.down_at(r, neighbour_idx as int)]
                            0 <= r < neighbour_row && r != row ==> !(
                            self.down_at(r, idx as int) && self.down_at(r, neighbour_idx as int)
                                && self.down_at(row as int, neighbour_idx as int)),
                    decreases 10 - neighbour_row,
                {
                    if neighbour_row != row {
                        let a = self.pressed_keys[(neighbour_row * 8 + idx) as usize];
                        let b = self.pressed_keys[(neighbour_row * 8 + neighbour_idx) as usize];
                        let c = self.pressed_keys[(row * 8 + neighbour_idx) as usize];
                        if a && b && c {
                            assert(self.down_at(neighbour_row as int, idx as int));
                            assert(self.down_at(neighbour_row as int, neighbour_idx as int));
                            assert(self.down_at(row as int, neighbour_idx as int));
                            return true;
                        }
                    }
                    neighbour_row = neighbour_row + 1;
                }
            }
            neighbour_idx = neighbour_idx + 1;
        }
        false
    }

    /// Scans row `row_idx`: bit `7 - i` is cleared for each key `i` of the
    /// row that is down or ghosted.
    pub fn read_row(&self, row_idx: u8) -> (r: u8)
        requires
            row_idx < ROW_COUNT,
        ensures
            r == self.spec_read_row(row_idx as int),
            forall|i: u8| #![trigger bit_set(r, i)]
                i < 8 ==> (bit_set(r, i) <==> !self.spec_reads_down(row_idx as int, 7 - i)),
    {
        let mut result: u8 = 0xFF;
        assert forall|i: u8| i < 8 implies #[trigger] bit_set(result, i) by {
            assert((0xFFu8 >> i) & 1 == 1) by (bit_vector)
                requires
                    i < 8,
            ;
        }
        let mut idx: u8 = 0;
        while idx < 8
            invariant
                row_idx < 10,
                idx <= 8,
                result == self.row_byte(row_idx as int, idx as int),
                forall|i: u8| #![trigger bit_set(result, i)]
                    i < 8 ==> (bit_set(result, i) <==> (7 - i >= idx || !self.spec_reads_down(
                        row_idx as int,
                        7 - i,
                    ))),
            decreases 8 - idx,
        {
            let down = self.pressed_keys[(row_idx * 8 + idx) as usize] || self.ghosted(row_idx, idx);
            if down {
                let old_result = result;
                let k: u8 = 7 - idx;
                result = result & !(1u8 << k);
                proof {
                    assert forall|i: u8| i < 8 implies #[trigger] bit_set(result, i) == (i != k && bit_set(old_result, i)) by {
                        lemma_clear_bit(old_result, k, i);
                    }
                }
            }
            idx = idx + 1;
        }
        result
    }
}

/// Clearing bit `k` leaves the other bits alone.
pub proof fn lemma_clear_bit(x: u8, k: u8, i: u8)
    requires
        k < 8,
        i < 8,
    ensures
        bit_set(x & !(1u8 << k), i) == (i != k && bit_set(x, i)),
{
    assert(((x & !(1u8 << k)) >> i) & 1 == 1 <==> (i != k && (x >> i) & 1 == 1)) by (bit_vector)
        requires
            k < 8,
            i < 8,
    ;
}

/// Pressing a key that was up and then releasing it gives back the same
/// set of held keys; pressing holds it, releasing lets it go, and no other
/// key changes.
pub proof fn law_press_release(kb: Keyboard, key: CpcKey, other: CpcKey)
    requires
        !kb@.contains(key),
        other != key,
    ensures
        kb@.insert(key).contains(key),
        !kb@.insert(key).remove(key).contains(key),
        kb@.insert(key).remove(key) == kb@,
        kb@.insert(key).contains(other) == kb@.contains(other),
        kb@.remove(key).contains(other) == kb@.contains(other),
{
    assert(kb@.insert(key).remove(key) =~= kb@);
}

/// With a single key held, a scan reports exactly that key: its own row
/// and column read down, and nothing else does (no ghost appears).
pub proof fn law_single_key_scan(kb: Keyboard, key: CpcKey, row: int, col: int)
    requires
        kb@ == set![key],
        0 <= row < 10,
        0 <= col < 8,
    ensures
        kb.spec_reads_down(row, col) <==> spec_key_index(key) == row * 8 + col,
{
    lemma_key_index_roundtrip(key);
    assert forall|j: int| 0 <= j < 80 implies (kb.pressed_keys@[j] <==> j == spec_key_index(key)) by {
        lemma_key_at_roundtrip(j as u8);
        assert(kb@.contains(spec_key_at(j as u8)) == kb.pressed_keys@[j]);
    }
    if kb.spec_ghosted(row, col) {
        let (c, r) = choose|c: int, r: int|
            #![trigger kb.down_at(r, col), kb.down_at(r, c), kb.down_at(row, c)]
            0 <= c < 8 && c != col && 0 <= r < 10 && r != row && kb.down_at(r, col) && kb.down_at(r, c)
                && kb.down_at(row, c);
        assert(kb.pressed_keys@[r * 8 + col]);
        assert(kb.pressed_keys@[r * 8 + c]);
    }
}

/// Ghosting: when three held keys form three corners of a rectangle in the
/// matrix, the fourth corner reads as held too.
pub proof fn law_ghost_rectangle(kb: Keyboard, row: int, col: int, r: int, c: int)
    requires
        0 <= row < 10,
        0 <= col < 8,
        0 <= r < 10,
        0 <= c < 8,
        r != row,
        c != col,
        kb.down_at(r, col),
        kb.down_at(r, c),
        kb.down_at(row, c),
    ensures
        kb.spec_reads_down(row, col),
{
}

/// The matrix positions among the first `n` that are held down.
pub open spec fn pressed_indices(s: Seq<bool>, n: int) -> Set<int> {
    Set::new(|i: int| 0 <= i < n && s[i])
}

/// Counting the held positions of a prefix counts the set of them.
proof fn lemma_count_prefix(s: Seq<bool>, n: int)
    requires
        0 <= n <= s.len(),
    ensures
        pressed_indices(s, n).finite(),
        count_pressed(s.take(n)) == pressed_indices(s, n).len(),
    decreases n,
{
    if n == 0 {
        assert(pressed_indices(s, 0) =~= Set::<int>::empty());
    } else {
        lemma_count_prefix(s, n - 1);
        assert(s.take(n).drop_last() =~= s.take(n - 1));
        if s[n - 1] {
            assert(pressed_indices(s, n) =~= pressed_indices(s, n - 1).insert(n - 1));
        } else {
            assert(pressed_indices(s, n) =~= pressed_indices(s, n - 1));
        }
    }
}

/// The number of held keys is the size of the set of held keys.
pub proof fn law_count_is_set_size(kb: Keyboard)
    ensures
        kb@.finite(),
        count_pressed(kb.pressed_keys@) == kb@.len(),
{
    let s = kb.pressed_keys@;
    lemma_count_prefix(s, 80);
    assert(s.take(80) =~= s);
    let idx = pressed_indices(s, 80);
    let f = |i: int| spec_key_at(i as u8);
    assert forall|a: int, b: int| idx.contains(a) && idx.contains(b) && #[trigger] f(a) == #[trigger] f(b) implies a == b by {
        lemma_key_at_roundtrip(a as u8);
        lemma_key_at_roundtrip(b as u8);
    }
    assert forall|k: CpcKey| #[trigger] kb@.contains(k) == idx.map(f).contains(k) by {
        lemma_key_index_roundtrip(k);
        if kb@.contains(k) {
            assert(idx.contains(spec_key_index(k) as int));
            assert(f(spec_key_index(k) as int) == k);
        }
        if idx.map(f).contains(k) {
            let i = choose|i: int| idx.contains(i) && f(i) == k;
            lemma_key_at_roundtrip(i as u8);
        }
    }
    assert(kb@ =~= idx.map(f));
    vstd::set_lib::lemma_map_size(idx, kb@, f);
}

/// Scanning one held key: with only the key wired at column `c` of row `r`
/// held, a scan of row `r` reads 0xFF with bit 7 - c cleared, and every
/// other row reads 0xFF.
pub proof fn law_scan_held_key(kb: Keyboard, r: int, c: int, q: int)
    requires
        0 <= r < 10,
        0 <= c < 8,
        0 <= q < 10,
        kb@ == set![matrix_row(r)@[c]],
    ensures
        kb.spec_read_row(q) == if q == r { !(0x80u8 >> (c as u8)) } else { 0xFF },
{
    law_key_layout(r, c);
    let key = matrix_row(r)@[c];
    assert forall|j: int| 0 <= j < 8 implies (kb.spec_reads_down(q, j) <==> (q == r && j == c)) by {
        law_single_key_scan(kb, key, q, j);
    }
    lemma_row_byte_one(kb, q, r, c, 8);
    let cc = c as u8;
    assert(0xFFu8 & !(1u8 << (7 - cc) as u8) == !(0x80u8 >> cc)) by (bit_vector)
        requires
            cc < 8,
    ;
}

/// The row byte when only key (`r`, `c`) reads down.
proof fn lemma_row_byte_one(kb: Keyboard, q: int, r: int, c: int, n: int)
    requires
        0 <= c < 8,
        0 <= n <= 8,
        forall|j: int| 0 <= j < 8 ==> (kb.spec_reads_down(q, j) <==> (q == r && j == c)),
    ensures
        kb.row_byte(q, n) == if q == r && c < n { 0xFFu8 & !(1u8 << ((7 - c) as u8)) } else { 0xFF },
    decreases n,
{
    if n > 0 {
        lemma_row_byte_one(kb, q, r, c, n - 1);
        assert(kb.spec_reads_down(q, n - 1) <==> (q == r && n - 1 == c));
    }
}

} // verus!
