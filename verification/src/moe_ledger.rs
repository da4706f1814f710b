//! What a mixture-of-experts graph allocates, by class.
use vstd::prelude::*;
use crate::e4b_sizes::{bind_bytes, bound_bytes};
use crate::moe_ir::{MoeArg, MoeBind, MoeGrid, MoePass, MoeUniform};
use crate::text::{chars_of, occurs_at, same_text, starts_with};

verus! {

/// Uploads are flushed once this many bytes are waiting.
pub const STAGING_FLUSH_BYTES: u64 = 268435456;

/// The class that a buffer's label puts it in.
pub open spec fn class_of(label: Seq<char>) -> Seq<char> {
    if occurs_at(label, "g4m-"@, 0) { label.skip(4) } else { label }
}

/// The class of a label: the label without the graph's own prefix.
pub fn vram_class(label: &str) -> (r: String)
    ensures
        r@ == class_of(label@),
{
    if starts_with(label, "g4m-") {
        let n: usize = chars_of(label).len();
        proof {
            reveal_strlit("g4m-");
        }
        let r = label.substring_char(4, n);
        assert(r@ =~= label@.skip(4));
        r.to_owned()
    } else {
        label.to_owned()
    }
}

/// How much of a class one token reads: all of it, the share of the experts that it is routed
/// to, or nothing.
#[derive(Clone, Copy, Debug, PartialEq, Eq, Structural)]
pub enum TokenShare {
    Experts,
    Whole,
    Nothing,
}

pub const WEIGHT_CLASSES: usize = 25;

/// The classes that hold weights: those of the experts come first.
pub open spec fn weight_class(i: int) -> Seq<char> {
    if i == 0 {
        "moe-eg"@
    } else if i == 1 {
        "moe-eu"@
    } else if i == 2 {
        "moe-ed"@
    } else if i == 3 {
        "moe-eg-sf"@
    } else if i == 4 {
        "moe-eu-sf"@
    } else if i == 5 {
        "moe-ed-sf"@
    } else if i == 6 {
        "embed"@
    } else if i == 7 {
        "ln"@
    } else if i == 8 {
        "final-ln"@
    } else if i == 9 {
        "at-qw"@
    } else if i == 10 {
        "at-kw"@
    } else if i == 11 {
        "at-vw"@
    } else if i == 12 {
        "at-ow"@
    } else if i == 13 {
        "at-qn"@
    } else if i == 14 {
        "at-kn"@
    } else if i == 15 {
        "at-vn"@
    } else if i == 16 {
        "mlp-gw"@
    } else if i == 17 {
        "mlp-uw"@
    } else if i == 18 {
        "mlp-dw"@
    } else if i == 19 {
        "moe-router"@
    } else if i == 20 {
        "moe-rscale"@
    } else if i == 21 {
        "moe-pes"@
    } else if i == 22 {
        "moe-ones"@
    } else if i == 23 {
        "lmhead-i8"@
    } else {
        "lmhead-i8-sf"@
    }
}

fn class_name(i: usize) -> (r: &'static str)
    requires
        i < WEIGHT_CLASSES,
    ensures
        r@ == weight_class(i as int),
{
    match i {
        0 => "moe-eg",
        1 => "moe-eu",
        2 => "moe-ed",
        3 => "moe-eg-sf",
        4 => "moe-eu-sf",
        5 => "moe-ed-sf",
        6 => "embed",
        7 => "ln",
        8 => "final-ln",
        9 => "at-qw",
        10 => "at-kw",
        11 => "at-vw",
        12 => "at-ow",
        13 => "at-qn",
        14 => "at-kn",
        15 => "at-vn",
        16 => "mlp-gw",
        17 => "mlp-uw",
        18 => "mlp-dw",
        19 => "moe-router",
        20 => "moe-rscale",
        21 => "moe-pes",
        22 => "moe-ones",
        23 => "lmhead-i8",
        _ => "lmhead-i8-sf",
    }
}

/// All classes that hold weights.
pub fn moe_weight_classes() -> (r: Vec<&'static str>)
    ensures
        r@.len() == WEIGHT_CLASSES,
        forall|i: int| 0 <= i < WEIGHT_CLASSES ==> (#[trigger] r@[i])@ == weight_class(i),
{
    let mut r: Vec<&'static str> = Vec::new();
    let mut i: usize = 0;
    while i < WEIGHT_CLASSES
        invariant
            i <= WEIGHT_CLASSES,
            r@.len() == i,
            forall|j: int| 0 <= j < i ==> (#[trigger] r@[j])@ == weight_class(j),
        decreases WEIGHT_CLASSES - i,
    {
        r.push(class_name(i));
        i = i + 1;
    }
    r
}

/// The first class from `i` on with this name.
pub open spec fn class_index(class: Seq<char>, i: int) -> Option<int>
    decreases WEIGHT_CLASSES - i,
{
    if i < 0 || i >= WEIGHT_CLASSES {
        None
    } else if weight_class(i) == class {
        Some(i)
    } else {
        class_index(class, i + 1)
    }
}

pub open spec fn share_of(class: Seq<char>) -> TokenShare {
    match class_index(class, 0) {
        Some(i) => if i < 6 { TokenShare::Experts } else { TokenShare::Whole },
        None => TokenShare::Nothing,
    }
}

/// How much of a class one token reads.
pub fn per_token_weight_share(class: &str) -> (r: TokenShare)
    ensures
        r == share_of(class@),
{
    let mut i: usize = 0;
    while i < WEIGHT_CLASSES
        invariant
            i <= WEIGHT_CLASSES,
            class_index(class@, i as int) == class_index(class@, 0),
        decreases WEIGHT_CLASSES - i,
    {
        if same_text(class, class_name(i)) {
            return if i < 6 { TokenShare::Experts } else { TokenShare::Whole };
        }
        i = i + 1;
    }
    TokenShare::Nothing
}

/// The buffers and bytes of one class.
pub struct VramEntry {
    pub class: String,
    pub count: usize,
    pub bytes: u64,
}

/// All allocations by class, in the order of the class names.
pub struct VramLedger {
    pub entries: Vec<VramEntry>,
    pub buffers: usize,
    pub total: u64,
    /// The bytes that were uploaded since the last flush.
    pub since_flush: u64,
}

/// `a` comes before `b`: character by character from `i` on, a prefix first.
pub open spec fn text_before(a: Seq<char>, b: Seq<char>, i: int) -> bool
    decreases a.len() - i,
{
    if i < 0 || i >= a.len() {
        i < b.len()
    } else if i >= b.len() {
        false
    } else if a[i] != b[i] {
        (a[i] as u32) < (b[i] as u32)
    } else {
        text_before(a, b, i + 1)
    }
}

fn is_before(a: &Vec<char>, b: &Vec<char>) -> (r: bool)
    ensures
        r == text_before(a@, b@, 0),
{
    let mut i: usize = 0;
    while i < a.len() && i < b.len()
        invariant
            i <= a@.len(),
            i <= b@.len(),
            text_before(a@, b@, 0) == text_before(a@, b@, i as int),
        decreases a@.len() - i,
    {
        if a[i] != b[i] {
            return (a[i] as u32) < (b[i] as u32);
        }
        i = i + 1;
    }
    i < b.len()
}

/// Of two different texts exactly one comes first.
proof fn lemma_before_total(a: Seq<char>, b: Seq<char>, i: int)
    requires
        0 <= i,
        i <= a.len(),
        i <= b.len(),
        forall|j: int| 0 <= j < i ==> a[j] == #[trigger] b[j],
    ensures
        text_before(a, b, i) && text_before(b, a, i) ==> false,
        !text_before(a, b, i) && !text_before(b, a, i) ==> a == b,
    decreases a.len() - i,
{
    if i < a.len() && i < b.len() && a[i] == b[i] {
        lemma_before_total(a, b, i + 1);
    } else if i >= a.len() && i >= b.len() {
        assert(a =~= b);
    } else if i < a.len() && i < b.len() {
        lemma_char_code(a[i], b[i]);
    }
}

/// Different characters have different codes.
proof fn lemma_char_code(a: char, b: char)
    ensures
        a as u32 == b as u32 ==> a == b,
{
    assert(a as u32 as char == a);
    assert(b as u32 as char == b);
}

proof fn lemma_before_trans(a: Seq<char>, b: Seq<char>, c: Seq<char>, i: int)
    requires
        0 <= i,
        text_before(a, b, i),
        text_before(b, c, i),
    ensures
        text_before(a, c, i),
    decreases a.len() - i,
{
    if i < a.len() && i < b.len() && i < c.len() && a[i] == b[i] && b[i] == c[i] {
        lemma_before_trans(a, b, c, i + 1);
    }
}

/// The place of a class among the entries from `i` on.
pub open spec fn entry_at(e: Seq<VramEntry>, class: Seq<char>, i: int) -> Option<int>
    decreases e.len() - i,
{
    if i < 0 || i >= e.len() {
        None
    } else if e[i].class@ == class {
        Some(i)
    } else {
        entry_at(e, class, i + 1)
    }
}

impl VramLedger {
    /// Entries stand in the order of their names, each once, and each holds something.
    pub open spec fn wf(&self) -> bool {
        &&& forall|i: int, j: int|
            0 <= i < j < self.entries@.len() ==> text_before(
                (#[trigger] self.entries@[i]).class@,
                (#[trigger] self.entries@[j]).class@,
                0,
            )
        &&& forall|i: int|
            0 <= i < self.entries@.len() ==> 0 < (#[trigger] self.entries@[i]).count
                <= self.buffers && self.entries@[i].bytes <= self.total
        &&& self.since_flush <= self.total
    }

    /// The buffers and bytes of a class: none where it has no entry.
    pub open spec fn held(&self, class: Seq<char>) -> (int, int) {
        match entry_at(self.entries@, class, 0) {
            Some(i) => (self.entries@[i].count as int, self.entries@[i].bytes as int),
            None => (0, 0),
        }
    }

    pub fn new() -> (r: VramLedger)
        ensures
            r.wf(),
            r.entries@.len() == 0,
            r.buffers == 0,
            r.total == 0,
            r.since_flush == 0,
    {
        VramLedger { entries: Vec::new(), buffers: 0, total: 0, since_flush: 0 }
    }
}

proof fn lemma_entry_at(e: Seq<VramEntry>, class: Seq<char>, i: int)
    requires
        0 <= i <= e.len(),
    ensures
        match entry_at(e, class, i) {
            Some(k) => {
                &&& i <= k < e.len()
                &&& e[k].class@ == class
                &&& forall|j: int| i <= j < k ==> (#[trigger] e[j]).class@ != class
            },
            None => forall|j: int| i <= j < e.len() ==> (#[trigger] e[j]).class@ != class,
        },
    decreases e.len() - i,
{
    if i < e.len() && e[i].class@ != class {
        lemma_entry_at(e, class, i + 1);
    }
}

/// An entry that is the only one of its class is the one that is found.
proof fn lemma_only(e: Seq<VramEntry>, class: Seq<char>, k: int)
    requires
        0 <= k < e.len(),
        e[k].class@ == class,
        forall|j: int| 0 <= j < e.len() && j != k ==> (#[trigger] e[j]).class@ != class,
    ensures
        entry_at(e, class, 0) == Some(k),
{
    lemma_entry_at(e, class, 0);
}

impl VramLedger {
    proof fn lemma_distinct(&self, i: int, j: int)
        requires
            self.wf(),
            0 <= i < self.entries@.len(),
            0 <= j < self.entries@.len(),
            i != j,
        ensures
            self.entries@[i].class@ != self.entries@[j].class@,
    {
        let a = self.entries@[i].class@;
        let b = self.entries@[j].class@;
        lemma_before_total(a, b, 0);
        if i < j {
            assert(text_before(a, b, 0));
        } else {
            assert(text_before(b, a, 0));
        }
        if a == b {
            assert(text_before(a, a, 0));
            lemma_before_total(a, a, 0);
        }
    }

    /// Adds a buffer of `bytes` bytes to its class.
    pub fn record(&mut self, label: &str, bytes: u64)
        requires
            old(self).wf(),
            old(self).buffers < usize::MAX,
            old(self).total + bytes <= u64::MAX,
        ensures
            final(self).wf(),
            final(self).buffers == old(self).buffers + 1,
            final(self).total == old(self).total + bytes,
            final(self).since_flush == old(self).since_flush + bytes,
            forall|c: Seq<char>|
                #[trigger] final(self).held(c) == if c == class_of(label@) {
                    (old(self).held(c).0 + 1, old(self).held(c).1 + bytes)
                } else {
                    old(self).held(c)
                },
    {
        let class = vram_class(label);
        let key = chars_of(class.as_str());
        let ghost before = *self;
        let n: usize = self.entries.len();
        let mut at: usize = 0;
        while at < n && is_before(&chars_of(self.entries[at].class.as_str()), &key)
            invariant
                *self == before,
                n == self.entries@.len(),
                at <= n,
                key@ == class@,
                forall|j: int|
                    0 <= j < at ==> text_before((#[trigger] self.entries@[j]).class@, key@, 0),
            decreases n - at,
        {
            at = at + 1;
        }
        if at < n && same_text(self.entries[at].class.as_str(), class.as_str()) {
            let count: usize = self.entries[at].count;
            let held: u64 = self.entries[at].bytes;
            let name = self.entries[at].class.as_str().to_owned();
            assert(self.entries@[at as int].count <= self.buffers);
            assert(self.entries@[at as int].bytes <= self.total);
            self.entries.set(at, VramEntry { class: name, count: count + 1, bytes: held + bytes });
            self.buffers = self.buffers + 1;
            self.total = self.total + bytes;
            self.since_flush = self.since_flush + bytes;
            proof {
                let k = at as int;
                assert forall|i: int, j: int| 0 <= i < j < n implies text_before(
                    (#[trigger] self.entries@[i]).class@,
                    (#[trigger] self.entries@[j]).class@,
                    0,
                ) by {
                    assert(self.entries@[i].class@ == before.entries@[i].class@);
                    assert(self.entries@[j].class@ == before.entries@[j].class@);
                }
                assert forall|c: Seq<char>| #[trigger]
                    self.held(c) == if c == class@ {
                        (before.held(c).0 + 1, before.held(c).1 + bytes)
                    } else {
                        before.held(c)
                    } by {
                    lemma_entry_at(self.entries@, c, 0);
                    lemma_entry_at(before.entries@, c, 0);
                    let a = entry_at(self.entries@, c, 0);
                    let b = entry_at(before.entries@, c, 0);
                    assert forall|i: int| 0 <= i < n implies (#[trigger] self.entries@[i]).class@
                        == before.entries@[i].class@ by {}
                    if a is Some {
                        assert(before.entries@[a->0].class@ == c);
                    }
                    if b is Some {
                        assert(self.entries@[b->0].class@ == c);
                    }
                    if a is Some && b is Some {
                        if a->0 != b->0 {
                            before.lemma_distinct(a->0, b->0);
                        }
                        if c != class@ {
                            assert(a->0 != k);
                        } else if a->0 != k {
                            before.lemma_distinct(a->0, k);
                        }
                    }
                }
            }
        } else {
            proof {
                let k = at as int;
                assert forall|j: int| 0 <= j < n implies (#[trigger] before.entries@[j]).class@
                    != class@ by {
                    let x = before.entries@[j].class@;
                    if j < k {
                        assert(text_before(x, key@, 0));
                        if x == class@ {
                            lemma_before_total(x, x, 0);
                        }
                    } else if j > k {
                        let y = before.entries@[k].class@;
                        assert(text_before(y, x, 0));
                        lemma_before_total(y, key@, 0);
                        assert(text_before(key@, y, 0));
                        lemma_before_trans(key@, y, x, 0);
                        if x == class@ {
                            lemma_before_total(x, x, 0);
                        }
                    }
                }
            }
            self.entries.insert(at, VramEntry { class, count: 1, bytes });
            self.buffers = self.buffers + 1;
            self.total = self.total + bytes;
            self.since_flush = self.since_flush + bytes;
            proof {
                let k = at as int;
                let cl = class_of(label@);
                assert forall|i: int, j: int| 0 <= i < j < self.entries@.len() implies text_before(
                    (#[trigger] self.entries@[i]).class@,
                    (#[trigger] self.entries@[j]).class@,
                    0,
                ) by {
                    if j == k {
                        assert(self.entries@[i] == before.entries@[i]);
                    } else if i == k {
                        let x = before.entries@[j - 1].class@;
                        let y = before.entries@[k].class@;
                        lemma_before_total(y, key@, 0);
                        assert(text_before(key@, y, 0));
                        if j - 1 > k {
                            assert(text_before(y, x, 0));
                            lemma_before_trans(key@, y, x, 0);
                        }
                    } else {
                        let a = if i < k { i } else { i - 1 };
                        let b = if j < k { j } else { j - 1 };
                        assert(self.entries@[i] == before.entries@[a]);
                        assert(self.entries@[j] == before.entries@[b]);
                    }
                }
                assert forall|i: int| 0 <= i < self.entries@.len() implies 0 < (
                #[trigger] self.entries@[i]).count <= self.buffers && self.entries@[i].bytes
                    <= self.total by {
                    if i != k {
                        let a = if i < k { i } else { i - 1 };
                        assert(self.entries@[i] == before.entries@[a]);
                    }
                }
                assert forall|c: Seq<char>| #[trigger]
                    self.held(c) == if c == cl {
                        (before.held(c).0 + 1, before.held(c).1 + bytes)
                    } else {
                        before.held(c)
                    } by {
                    lemma_entry_at(before.entries@, c, 0);
                    if c == cl {
                        assert forall|j: int| 0 <= j < self.entries@.len() && j != k implies (
                        #[trigger] self.entries@[j]).class@ != c by {
                            let a = if j < k { j } else { j - 1 };
                            assert(self.entries@[j] == before.entries@[a]);
                        }
                        lemma_only(self.entries@, c, k);
                    } else {
                        match entry_at(before.entries@, c, 0) {
                            Some(b) => {
                                let m = if b < k { b } else { b + 1 };
                                assert(self.entries@[m] == before.entries@[b]);
                                assert forall|j: int|
                                    0 <= j < self.entries@.len() && j != m implies (
                                #[trigger] self.entries@[j]).class@ != c by {
                                    if j != k {
                                        let a = if j < k { j } else { j - 1 };
                                        assert(self.entries@[j] == before.entries@[a]);
                                        before.lemma_distinct(a, b);
                                    }
                                }
                                lemma_only(self.entries@, c, m);
                            },
                            None => {
                                lemma_entry_at(self.entries@, c, 0);
                                if entry_at(self.entries@, c, 0) is Some {
                                    let j = entry_at(self.entries@, c, 0)->0;
                                    let a = if j < k { j } else { j - 1 };
                                    assert(self.entries@[j] == before.entries@[a]);
                                }
                            },
                        }
                    }
                }
            }
        }
    }

    /// Whether the uploads that wait are to be flushed now.
    pub fn flush_staging_if_due(&mut self, enabled: bool) -> (due: bool)
        ensures
            due == (enabled && old(self).since_flush >= STAGING_FLUSH_BYTES),
            final(self).entries == old(self).entries,
            final(self).buffers == old(self).buffers,
            final(self).total == old(self).total,
            final(self).since_flush == if due { 0 } else { old(self).since_flush },
            old(self).wf() ==> final(self).wf(),
    {
        if enabled && self.since_flush >= STAGING_FLUSH_BYTES {
            self.since_flush = 0;
            true
        } else {
            false
        }
    }

    /// The larger class comes first in a report, the earlier name among equals.
    pub open spec fn ranks(&self, a: int, b: int) -> bool {
        ||| self.entries@[a].bytes > self.entries@[b].bytes
        ||| self.entries@[a].bytes == self.entries@[b].bytes && a < b
    }

    /// The order of the entries in a report.
    pub fn report(&self) -> (r: Vec<usize>)
        ensures
            r@.len() == self.entries@.len(),
            forall|i: int| 0 <= i < r@.len() ==> #[trigger] r@[i] < self.entries@.len(),
            forall|i: int, j: int|
                0 <= i < j < r@.len() ==> self.ranks(
                    (#[trigger] r@[i]) as int,
                    (#[trigger] r@[j]) as int,
                ),
    {
        let n: usize = self.entries.len();
        let mut r: Vec<usize> = Vec::new();
        let mut k: usize = 0;
        while k < n
            invariant
                n == self.entries@.len(),
                k <= n,
                r@.len() == k,
                forall|i: int| 0 <= i < k ==> #[trigger] r@[i] < k,
                forall|i: int, j: int|
                    0 <= i < j < k ==> self.ranks(
                        (#[trigger] r@[i]) as int,
                        (#[trigger] r@[j]) as int,
                    ),
            decreases n - k,
        {
            let bytes: u64 = self.entries[k].bytes;
            let mut p: usize = 0;
            while p < k && self.entries[r[p]].bytes >= bytes
                invariant
                    n == self.entries@.len(),
                    k < n,
                    p <= k,
                    r@.len() == k,
                    bytes == self.entries@[k as int].bytes,
                    forall|i: int| 0 <= i < k ==> #[trigger] r@[i] < k,
                    forall|i: int| 0 <= i < p ==> self.entries@[(#[trigger] r@[i]) as int].bytes >= bytes,
                decreases k - p,
            {
                p = p + 1;
            }
            let ghost old_r = r@;
            r.insert(p, k);
            proof {
                assert forall|i: int, j: int| 0 <= i < j < k + 1 implies self.ranks(
                    (#[trigger] r@[i]) as int,
                    (#[trigger] r@[j]) as int,
                ) by {
                    if j == p {
                        assert(r@[i] == old_r[i]);
                    } else if i == p {
                        assert(r@[j] == old_r[j - 1]);
                        if j - 1 > p {
                            assert(self.ranks(old_r[p as int] as int, old_r[j - 1] as int));
                        }
                    } else {
                        let a = if i < p { i } else { i - 1 };
                        let b = if j < p { j } else { j - 1 };
                        assert(r@[i] == old_r[a] && r@[j] == old_r[b]);
                    }
                }
                assert forall|i: int| 0 <= i < k + 1 implies #[trigger] r@[i] < k + 1 by {
                    if i < p {
                        assert(r@[i] == old_r[i]);
                    } else if i > p {
                        assert(r@[i] == old_r[i - 1]);
                    }
                }
            }
            k = k + 1;
        }
        r
    }
}

/// The next state of the generator behind the synthetic bytes.
pub open spec fn next_state(s: u64) -> u64 {
    s.wrapping_mul(6364136223846793005).wrapping_add(1442695040888963407)
}

pub open spec fn state_after(n: nat) -> u64
    decreases n,
{
    if n == 0 {
        0x9e3779b97f4a7c15
    } else {
        next_state(state_after((n - 1) as nat))
    }
}

/// A fixed sequence of bytes that stand for small finite values in every format of the
/// caches.
pub fn synthetic_state_bytes_0x30_to_0x3e_finite_small_under_fp8_bf16_and_f32_views_so_no_nan_and_moe_routing_stays_nondegenerate(
    len: usize,
) -> (r: Vec<u8>)
    ensures
        r@ == Seq::new(len as nat, |i: int| (0x30 + (state_after((i + 1) as nat) >> 41) % 15) as u8),
        forall|i: int| 0 <= i < len ==> 0x30 <= #[trigger] r@[i] <= 0x3e,
{
    let mut state: u64 = 0x9e3779b97f4a7c15;
    let mut r: Vec<u8> = Vec::new();
    while r.len() < len
        invariant
            r@.len() <= len,
            state == state_after(r@.len()),
            r@ == Seq::new(
                r@.len(),
                |i: int| (0x30 + (state_after((i + 1) as nat) >> 41) % 15) as u8,
            ),
            forall|i: int| 0 <= i < r@.len() ==> 0x30 <= #[trigger] r@[i] <= 0x3e,
        decreases len - r@.len(),
    {
        state = state.wrapping_mul(6364136223846793005).wrapping_add(1442695040888963407);
        let ghost n = r@.len();
        assert(state == state_after((n + 1) as nat));
        r.push(0x30u8 + ((state >> 41) % 15) as u8);
        assert(r@ =~= Seq::new(
            r@.len(),
            |i: int| (0x30 + (state_after((i + 1) as nat) >> 41) % 15) as u8,
        ));
    }
    r
}

/// Whether a pass is a bf16 row product that may load wide, and whether it does.
pub open spec fn wide_load(p: MoePass) -> Option<bool> {
    if p.label@ == "g4m-moe-rproj"@ || p.binds@.len() < 3 {
        None
    } else {
        match p.binds@[2].arg {
            MoeArg::Uni(MoeUniform::Gemv(g)) => Some(g.wide == 1),
            _ => None,
        }
    }
}

/// How many of the first `n` passes load wide (`true`) or could but do not (`false`).
pub open spec fn wide_count(p: Seq<MoePass>, wide: bool, n: int) -> int
    decreases n,
{
    if n <= 0 {
        0
    } else {
        wide_count(p, wide, n - 1) + if wide_load(p[n - 1]) == Some(wide) { 1int } else { 0 }
    }
}

/// The row products of a pass list that load wide, and those that do not.
pub fn dense_gemv_wide_counts(p: &Vec<MoePass>) -> (r: (usize, usize))
    ensures
        r.0 == wide_count(p@, true, p@.len() as int),
        r.1 == wide_count(p@, false, p@.len() as int),
{
    let mut wide: usize = 0;
    let mut narrow: usize = 0;
    let mut i: usize = 0;
    while i < p.len()
        invariant
            i <= p@.len(),
            wide + narrow <= i,
            wide == wide_count(p@, true, i as int),
            narrow == wide_count(p@, false, i as int),
        decreases p@.len() - i,
    {
        if !same_text(p[i].label, "g4m-moe-rproj") && p[i].binds.len() >= 3 {
            let b: MoeBind = p[i].binds[2];
            match b.arg {
                MoeArg::Uni(MoeUniform::Gemv(g)) => {
                    if g.wide == 1 {
                        wide = wide + 1;
                    } else {
                        narrow = narrow + 1;
                    }
                },
                _ => {},
            }
        }
        i = i + 1;
    }
    (wide, narrow)
}

/// The passes below `n` with this label, in order.
pub open spec fn labelled(p: Seq<MoePass>, class: Seq<char>, n: int) -> Seq<usize>
    decreases n,
{
    if n <= 0 {
        Seq::empty()
    } else {
        let s = labelled(p, class, n - 1);
        if p[n - 1].label@ == class { s.push((n - 1) as usize) } else { s }
    }
}

/// The decode passes with this label: those that a replicated step runs again.
pub fn passes_labelled(p: &Vec<MoePass>, class: &str) -> (r: Vec<usize>)
    ensures
        r@ == labelled(p@, class@, p@.len() as int),
{
    let mut r: Vec<usize> = Vec::new();
    let mut i: usize = 0;
    while i < p.len()
        invariant
            i <= p@.len(),
            r@ == labelled(p@, class@, i as int),
        decreases p@.len() - i,
    {
        if same_text(p[i].label, class) {
            r.push(i);
        }
        i = i + 1;
    }
    r
}

/// What is reported of a pass: its label, its entry point, its grid and the bytes of all the
/// buffers that it binds.
pub struct PassRow {
    pub label: &'static str,
    pub entry: &'static str,
    pub grid: MoeGrid,
    pub bind_bytes: u64,
}

impl PassRow {
    /// Whether this reports a pass whose buffers have these sizes.
    pub open spec fn of(self, p: MoePass, sizes: Seq<u64>) -> bool {
        &&& self.label@ == p.label@
        &&& self.entry@ == p.entry@
        &&& self.grid == p.grid
        &&& self.bind_bytes == bound_bytes(sizes).0
    }
}

/// The passes of a list as they are reported. `sizes` holds the size of each buffer that a pass
/// binds.
pub fn pass_rows(p: &Vec<MoePass>, sizes: &Vec<Vec<u64>>) -> (r: Vec<PassRow>)
    requires
        sizes@.len() == p@.len(),
        forall|i: int|
            0 <= i < sizes@.len() ==> bound_bytes((#[trigger] sizes@[i])@).0 <= u64::MAX,
    ensures
        r@.len() == p@.len(),
        forall|i: int| 0 <= i < r@.len() ==> (#[trigger] r@[i]).of(p@[i], sizes@[i]@),
{
    let mut r: Vec<PassRow> = Vec::new();
    let mut i: usize = 0;
    while i < p.len()
        invariant
            i <= p@.len(),
            r@.len() == i,
            sizes@.len() == p@.len(),
            forall|j: int|
                0 <= j < sizes@.len() ==> bound_bytes((#[trigger] sizes@[j])@).0 <= u64::MAX,
            forall|j: int| 0 <= j < i ==> (#[trigger] r@[j]).of(p@[j], sizes@[j]@),
        decreases p@.len() - i,
    {
        let (bytes, _) = bind_bytes(sizes[i].as_slice());
        r.push(
            PassRow { label: p[i].label, entry: p[i].entry, grid: p[i].grid, bind_bytes: bytes },
        );
        i = i + 1;
    }
    r
}

/// The bytes of the first `n` entries of which a token reads this share.
pub open spec fn shared_bytes(e: Seq<VramEntry>, share: TokenShare, n: int) -> int
    decreases n,
{
    if n <= 0 {
        0
    } else {
        shared_bytes(e, share, n - 1) + if share_of(e[n - 1].class@) == share {
            e[n - 1].bytes as int
        } else {
            0
        }
    }
}

proof fn lemma_shared_grows(e: Seq<VramEntry>, share: TokenShare, i: int, n: int)
    requires
        0 <= i <= n <= e.len(),
    ensures
        0 <= shared_bytes(e, share, i) <= shared_bytes(e, share, n),
    decreases n,
{
    if i < n {
        lemma_shared_grows(e, share, i, n - 1);
    } else if n > 0 {
        lemma_shared_grows(e, share, i - 1, n - 1);
    }
}

impl VramLedger {
    /// The bytes of the experts' weights, of which a token reads as many as it is routed to,
    /// and of the weights that every token reads. None where they do not fit.
    pub fn weight_bytes_per_token(&self) -> (r: Option<(u64, u64)>)
        ensures
            ({
                let n = self.entries@.len() as int;
                let experts = shared_bytes(self.entries@, TokenShare::Experts, n);
                let whole = shared_bytes(self.entries@, TokenShare::Whole, n);
                match r {
                    Some((x, w)) => x == experts && w == whole,
                    None => experts > u64::MAX || whole > u64::MAX,
                }
            }),
    {
        let n: usize = self.entries.len();
        let mut experts: u64 = 0;
        let mut whole: u64 = 0;
        let mut i: usize = 0;
        while i < n
            invariant
                i <= n == self.entries@.len(),
                experts == shared_bytes(self.entries@, TokenShare::Experts, i as int),
                whole == shared_bytes(self.entries@, TokenShare::Whole, i as int),
            decreases n - i,
        {
            let e = &self.entries[i];
            proof {
                lemma_shared_grows(self.entries@, TokenShare::Experts, i + 1, n as int);
                lemma_shared_grows(self.entries@, TokenShare::Whole, i + 1, n as int);
            }
            match per_token_weight_share(e.class.as_str()) {
                TokenShare::Experts => match experts.checked_add(e.bytes) {
                    Some(s) => {
                        experts = s;
                    },
                    None => {
                        return None;
                    },
                },
                TokenShare::Whole => match whole.checked_add(e.bytes) {
                    Some(s) => {
                        whole = s;
                    },
                    None => {
                        return None;
                    },
                },
                TokenShare::Nothing => {},
            }
            i = i + 1;
        }
        Some((experts, whole))
    }
}

} // verus!
