//! License keys: generation from a seed, text forms, checksum, parsing and
//! validation.
//!
//! A key is 22 numbers: the two seed words, four user-data words and sixteen
//! check values. Its text form writes each number in base 36 (lowercase),
//! separated by `-`; a full key string adds `-` and the checksum.

use vstd::prelude::*;
use rand::{Rng, SeedableRng};
use vstd::string::StringSliceAdditionalSpecFns;

verus! {

/// Mixing parameters of the sixteen check values.
pub const A: [u32; 16] = [24, 53, 52, 66, 4, 3, 52, 466, 23, 92, 512, 625, 245, 562, 555, 667];

pub const B: [u32; 16] = [4, 2, 3, 6, 64, 34, 54, 64, 12, 34, 74, 36, 988, 467, 34, 23];

pub const C: [u32; 16] = [
    652425345,
    328232592,
    290284532,
    344982339,
    652545345,
    328235392,
    290225432,
    301322339,
    652415445,
    321112592,
    294284532,
    304932339,
    651425345,
    325432592,
    290684532,
    304782339,
];

/// The first 32-bit word of the ChaCha stream that a seed selects.
pub uninterp spec fn chacha_word(seed_hi: u64, seed_lo: u64) -> u32;

/// Relies on rand's ChaChaRng (`SeedableRng::from_seed` keyed by the seed's
/// four 32-bit halves, `set_counter(seed.1, seed.0)`, then `Rng::gen::<u32>`):
/// ChaCha is deterministic, so the word depends on the seed alone.
#[verifier::external_body]
fn first_stream_word(seed: (u64, u64)) -> (r: u32)
    ensures
        r == chacha_word(seed.0, seed.1),
{
    let words = [(seed.0 >> 32) as u32, seed.0 as u32, (seed.1 >> 32) as u32, seed.1 as u32];
    let mut rng = rand::ChaChaRng::from_seed(&words[..]);
    rng.set_counter(seed.1, seed.0);
    rng.gen::<u32>()
}

/// The CRC-64 (ISO polynomial) of a byte string.
pub uninterp spec fn crc64_iso(bytes: Seq<u8>) -> u64;

/// Relies on crc::crc64::checksum_iso: the CRC-64 with the ISO polynomial,
/// which depends on the bytes alone.
#[verifier::external_body]
fn crc64_iso_checksum(bytes: &[u8]) -> (r: u64)
    ensures
        r == crc64_iso(bytes@),
{
    crc::crc64::checksum_iso(bytes)
}

/// Relies on String::push: appends one character.
#[verifier::external_body]
fn push_char(s: &mut String, c: char)
    ensures
        final(s)@ == old(s)@.push(c),
{
    s.push(c)
}

/// Check value `i` of a key with the given seed.
pub open spec fn key_value(seed: (u64, u64), i: int) -> u32 {
    let tp = chacha_word(seed.0, seed.1);
    let a = A[i] % 20;
    let b = B[i] % 8;
    if a % 2 == 0 {
        (tp >> a) ^ ((tp >> b) | C[i])
    } else {
        (tp >> a) ^ ((tp >> b) & C[i])
    }
}

fn gen_key_value(seed: (u64, u64), i: usize) -> (r: u32)
    requires
        i < 16,
    ensures
        r == key_value(seed, i as int),
{
    let tp = first_stream_word(seed);
    let a = A[i] % 20;
    let b = B[i] % 8;
    if a % 2 == 0 {
        (tp >> a) ^ ((tp >> b) | C[i])
    } else {
        (tp >> a) ^ ((tp >> b) & C[i])
    }
}

/// A base-36 digit, lowercase.
pub open spec fn digit_char(d: nat) -> char {
    if d < 10 {
        ((48 + d) as u8) as char
    } else {
        ((87 + d) as u8) as char
    }
}

/// `n` in base 36, most significant digit first; `0` for zero.
pub open spec fn base36(n: nat) -> Seq<char>
    decreases n,
{
    if n < 36 {
        seq![digit_char(n)]
    } else {
        base36(n / 36).push(digit_char(n % 36))
    }
}

/// The numbers in base 36, joined by `-` when `dash` holds, else run together.
pub open spec fn joined(ns: Seq<nat>, dash: bool) -> Seq<char>
    decreases ns.len(),
{
    if ns.len() == 0 {
        Seq::empty()
    } else if ns.len() == 1 {
        base36(ns[0])
    } else if dash {
        joined(ns.drop_last(), dash).push('-') + base36(ns.last())
    } else {
        joined(ns.drop_last(), dash) + base36(ns.last())
    }
}

pub open spec fn as_nats64(s: Seq<u64>) -> Seq<nat> {
    s.map_values(|x: u64| x as nat)
}

pub open spec fn as_nats32(s: Seq<u32>) -> Seq<nat> {
    s.map_values(|x: u32| x as nat)
}

/// The 22 numbers of a key, in text order.
pub open spec fn key_numbers(k: Key) -> Seq<nat> {
    seq![k.seed.0 as nat, k.seed.1 as nat] + as_nats64(k.userdata@) + as_nats32(k.values@)
}

/// The running sums behind the checksum, over the characters of the run-together
/// form.
pub open spec fn mix(cs: Seq<char>) -> (u32, u32)
    decreases cs.len(),
{
    if cs.len() == 0 {
        (0xdeadbeefu32, 0x32323232u32)
    } else {
        let p = mix(cs.drop_last());
        let right = ((p.1 as nat + (cs.last() as u32) as nat) % 0x1_0000_0000) as u32;
        let left = ((p.0 as nat + right as nat) % 0x1_0000_0000) as u32;
        (left, right)
    }
}

/// The checksum of a key's numbers: the two sums side by side (left in the
/// high half), in base 36.
pub open spec fn checksum_of(ns: Seq<nat>) -> Seq<char> {
    let p = mix(joined(ns, false));
    base36(p.0 as nat * 0x1_0000_0000 + p.1 as nat)
}

proof fn lemma_base36_ascii(n: nat)
    ensures
        forall|q: int| 0 <= q < base36(n).len() ==> (#[trigger] base36(n)[q] as u32) < 128,
    decreases n,
{
    assert forall|d: nat| d < 36 implies (#[trigger] digit_char(d) as u32) < 128 by {
        if d < 10 {
            assert(((48 + d) as u8) as char as u32 == 48 + d);
        } else {
            assert(((87 + d) as u8) as char as u32 == 87 + d);
        }
    }
    if n >= 36 {
        lemma_base36_ascii(n / 36);
        let prev = base36(n / 36);
        assert forall|q: int| 0 <= q < base36(n).len() implies (#[trigger] base36(n)[q] as u32)
            < 128 by {
            if q < prev.len() {
                assert(base36(n)[q] == prev[q]);
            } else {
                assert(base36(n)[q] == digit_char(n % 36));
            }
        }
    } else {
        assert(base36(n)[0] == digit_char(n));
    }
}

fn digit(d: u64) -> (r: char)
    requires
        d < 36,
    ensures
        r == digit_char(d as nat),
{
    if d < 10 {
        ((48 + d) as u8) as char
    } else {
        ((87 + d) as u8) as char
    }
}

fn push_base36(out: &mut Vec<char>, n: u64)
    ensures
        final(out)@ == old(out)@ + base36(n as nat),
    decreases n,
{
    if n < 36 {
        out.push(digit(n));
        proof {
            assert(final(out)@ =~= old(out)@ + base36(n as nat));
        }
    } else {
        push_base36(out, n / 36);
        out.push(digit(n % 36));
        proof {
            assert(final(out)@ =~= old(out)@ + base36(n as nat));
        }
    }
}

fn chars_to_string(cs: &Vec<char>) -> (r: String)
    ensures
        r@ == cs@,
{
    let mut s = String::new();
    let mut i: usize = 0;
    while i < cs.len()
        invariant
            i <= cs@.len(),
            s@ == cs@.take(i as int),
        decreases cs.len() - i,
    {
        push_char(&mut s, cs[i]);
        proof {
            assert(s@ =~= cs@.take(i + 1));
        }
        i = i + 1;
    }
    proof {
        assert(cs@.take(cs@.len() as int) =~= cs@);
    }
    s
}

fn join_numbers(ns: &Vec<u64>, dash: bool) -> (r: Vec<char>)
    ensures
        r@ == joined(as_nats64(ns@), dash),
{
    let mut out: Vec<char> = Vec::new();
    let mut i: usize = 0;
    while i < ns.len()
        invariant
            i <= ns@.len(),
            out@ == joined(as_nats64(ns@).take(i as int), dash),
        decreases ns.len() - i,
    {
        let ghost before = out@;
        let ghost t = as_nats64(ns@).take(i + 1);
        proof {
            assert(t.drop_last() =~= as_nats64(ns@).take(i as int));
            assert(t.last() == ns@[i as int] as nat);
        }
        if i > 0 && dash {
            out.push('-');
        }
        push_base36(&mut out, ns[i]);
        proof {
            if i == 0 {
                assert(as_nats64(ns@).take(0) =~= Seq::<nat>::empty());
                assert(out@ =~= joined(t, dash));
            } else {
                assert(out@ =~= joined(t, dash));
            }
        }
        i = i + 1;
    }
    proof {
        assert(as_nats64(ns@).take(ns@.len() as int) =~= as_nats64(ns@));
    }
    out
}

/// A license key.
#[derive(Clone, Copy, Debug)]
pub struct Key {
    pub seed: (u64, u64),
    pub values: [u32; 16],
    pub userdata: [u64; 4],
}

/// What a key check finds.
#[derive(Clone, Copy, Debug, PartialEq, Eq, Structural)]
pub enum KeyValidity {
    /// A correct key.
    Valid,
    /// A key whose checksum does not match (misspelt).
    Invalid,
    /// A banned key.
    Blacklist,
    /// A key made up by someone other than the issuer.
    Faux,
}

/// The seeds that are banned.
pub open spec fn blacklisted(seed0: nat, seed1: nat) -> bool {
    (seed0 == u64::MAX && seed1 == u64::MAX) || (seed0 == 0 && seed1 == 0)
}

/// The check of a key given as its numbers: banned seeds first; then the
/// check values at indices 5 and 9 must be those the seed gives.
pub open spec fn validity_of(ns: Seq<nat>) -> KeyValidity {
    let seed = (ns[0] as u64, ns[1] as u64);
    if blacklisted(ns[0], ns[1]) {
        KeyValidity::Blacklist
    } else if ns[11] != key_value(seed, 5) as nat || ns[15] != key_value(seed, 9) as nat {
        KeyValidity::Faux
    } else {
        KeyValidity::Valid
    }
}

/// The bytes that user data `v` is folded into before hashing.
pub open spec fn folded_bytes(v: u64) -> Seq<u8> {
    seq![
        (v >> 52) as u8,
        (v >> 44) as u8,
        (v >> 36) as u8,
        (v >> 32) as u8,
        (v >> 24) as u8,
        (v >> 16) as u8,
        (v >> 8) as u8,
        v as u8,
    ]
}

impl Key {
    fn numbers(&self) -> (r: Vec<u64>)
        ensures
            as_nats64(r@) == key_numbers(*self),
    {
        let ghost head = seq![self.seed.0, self.seed.1];
        let ghost wide = self.values@.map_values(|v: u32| v as u64);
        let mut ns: Vec<u64> = Vec::new();
        ns.push(self.seed.0);
        ns.push(self.seed.1);
        let mut i: usize = 0;
        while i < 4
            invariant
                i <= 4,
                ns@ =~= head + self.userdata@.take(i as int),
            decreases 4 - i,
        {
            ns.push(self.userdata[i]);
            proof {
                assert(self.userdata@.take(i + 1) =~= self.userdata@.take(i as int).push(
                    self.userdata@[i as int],
                ));
            }
            i = i + 1;
        }
        proof {
            assert(self.userdata@.take(4) =~= self.userdata@);
        }
        let mut j: usize = 0;
        while j < 16
            invariant
                j <= 16,
                wide.len() == 16,
                forall|k: int| 0 <= k < 16 ==> wide[k] == self.values@[k] as u64,
                ns@ =~= head + self.userdata@ + wide.take(j as int),
            decreases 16 - j,
        {
            ns.push(self.values[j] as u64);
            proof {
                assert(wide.take(j + 1) =~= wide.take(j as int).push(wide[j as int]));
            }
            j = j + 1;
        }
        proof {
            assert(wide.take(16) =~= wide);
            assert(as_nats64(ns@) =~= key_numbers(*self));
        }
        ns
    }

    /// The key's numbers run together, without separators: the text the
    /// checksum is taken over.
    pub fn secure_string(self) -> (r: String)
        ensures
            r@ == joined(key_numbers(self), false),
    {
        let ns = self.numbers();
        let cs = join_numbers(&ns, false);
        chars_to_string(&cs)
    }

    /// The key's text form: its numbers in base 36, joined by `-`.
    pub fn to_key_string(self) -> (r: String)
        ensures
            r@ == joined(key_numbers(self), true),
    {
        let ns = self.numbers();
        let cs = join_numbers(&ns, true);
        chars_to_string(&cs)
    }

    /// A key for `seed`: its sixteen check values, and no user data.
    pub fn generate(seed: (u64, u64)) -> (r: Key)
        ensures
            r.seed == seed,
            forall|i: int| 0 <= i < 16 ==> r.values@[i] == key_value(seed, i),
            forall|i: int| 0 <= i < 4 ==> r.userdata@[i] == 0,
    {
        let mut key = Key { seed, values: [0; 16], userdata: [0; 4] };
        let mut i: usize = 0;
        while i < 16
            invariant
                i <= 16,
                key.seed == seed,
                forall|j: int| 0 <= j < i ==> key.values@[j] == key_value(seed, j),
                forall|j: int| 0 <= j < 4 ==> key.userdata@[j] == 0,
            decreases 16 - i,
        {
            key.values[i] = gen_key_value(seed, i);
            i = i + 1;
        }
        key
    }

    /// Stores user data word `ind`. The first two words are kept hashed (the
    /// CRC-64 of the value's folded bytes); the others as given.
    pub fn set_userdata(&mut self, ind: usize, v: u64)
        requires
            ind < 4,
        ensures
            final(self).seed == old(self).seed,
            final(self).values == old(self).values,
            final(self).userdata@ == old(self).userdata@.update(
                ind as int,
                if ind < 2 {
                    crc64_iso(folded_bytes(v))
                } else {
                    v
                },
            ),
    {
        if ind < 2 {
            let hashy: Vec<u8> = vec![
                (v >> 52) as u8,
                (v >> 44) as u8,
                (v >> 36) as u8,
                (v >> 32) as u8,
                (v >> 24) as u8,
                (v >> 16) as u8,
                (v >> 8) as u8,
                v as u8,
            ];
            proof {
                assert(hashy@ =~= folded_bytes(v));
            }
            self.userdata[ind] = crc64_iso_checksum(hashy.as_slice());
        } else {
            self.userdata[ind] = v;
        }
    }

    /// User data word `ind`.
    pub fn userdata(&mut self, ind: usize) -> (r: u64)
        requires
            ind < 4,
        ensures
            r == old(self).userdata@[ind as int],
            *final(self) == *old(self),
    {
        self.userdata[ind]
    }

    fn checksum_chars(&self) -> (r: Vec<char>)
        ensures
            r@ == checksum_of(key_numbers(*self)),
            forall|q: int| 0 <= q < r@.len() ==> (#[trigger] r@[q] as u32) < 128,
    {
        let ns = self.numbers();
        let s = join_numbers(&ns, false);
        let mut left: u32 = 0xdeadbeef;
        let mut right: u32 = 0x32323232;
        let mut i: usize = 0;
        while i < s.len()
            invariant
                i <= s@.len(),
                (left, right) == mix(s@.take(i as int)),
            decreases s.len() - i,
        {
            proof {
                assert(s@.take(i + 1).drop_last() =~= s@.take(i as int));
            }
            let c = s[i] as u32;
            right = ((right as u64 + c as u64) % 0x1_0000_0000) as u32;
            left = ((left as u64 + right as u64) % 0x1_0000_0000) as u32;
            i = i + 1;
        }
        proof {
            assert(s@.take(s@.len() as int) =~= s@);
        }
        let mut out: Vec<char> = Vec::new();
        push_base36(&mut out, (left as u64) * 0x1_0000_0000 + right as u64);
        proof {
            assert(out@ =~= checksum_of(key_numbers(*self)));
            lemma_base36_ascii(left as nat * 0x1_0000_0000 + right as nat);
        }
        out
    }

    /// The key's checksum, in base 36.
    pub fn checksum(&self) -> (r: String)
        ensures
            r@ == checksum_of(key_numbers(*self)),
    {
        let cs = self.checksum_chars();
        chars_to_string(&cs)
    }

    /// Checks a key: a banned seed is `Blacklist`; a key whose check values
    /// at indices 5 and 9 differ from those its seed gives is `Faux`; any
    /// other key is `Valid`.
    pub fn check_key(&self) -> (r: KeyValidity)
        ensures
            r == validity_of(key_numbers(*self)),
    {
        proof {
            assert(key_numbers(*self)[11] == self.values@[5] as nat);
            assert(key_numbers(*self)[15] == self.values@[9] as nat);
        }
        if (self.seed.0 == u64::MAX && self.seed.1 == u64::MAX) || (self.seed.0 == 0
            && self.seed.1 == 0) {
            KeyValidity::Blacklist
        } else if self.values[5] != gen_key_value(self.seed, 5) {
            KeyValidity::Faux
        } else if self.values[9] != gen_key_value(self.seed, 9) {
            KeyValidity::Faux
        } else {
            KeyValidity::Valid
        }
    }
}

/// Relies on str::trim: the text without leading and trailing white space,
/// as Unicode's White_Space property defines it.
#[verifier::external_body]
fn trim(s: &str) -> (r: &str)
    ensures
        r@ == trimmed(s@),
{
    s.trim()
}

/// Unicode's White_Space property: the 25 characters it lists.
pub open spec fn is_white_space(c: char) -> bool {
    let u = c as u32;
    ||| 0x09 <= u <= 0x0d
    ||| u == 0x20
    ||| u == 0x85
    ||| u == 0xa0
    ||| u == 0x1680
    ||| 0x2000 <= u <= 0x200a
    ||| u == 0x2028
    ||| u == 0x2029
    ||| u == 0x202f
    ||| u == 0x205f
    ||| u == 0x3000
}

/// The text without its leading white space.
pub open spec fn trim_front(s: Seq<char>) -> Seq<char>
    decreases s.len(),
{
    if s.len() > 0 && is_white_space(s[0]) {
        trim_front(s.skip(1))
    } else {
        s
    }
}

/// The text without its trailing white space.
pub open spec fn trim_back(s: Seq<char>) -> Seq<char>
    decreases s.len(),
{
    if s.len() > 0 && is_white_space(s.last()) {
        trim_back(s.drop_last())
    } else {
        s
    }
}

/// The text without leading and trailing white space.
pub open spec fn trimmed(s: Seq<char>) -> Seq<char> {
    trim_back(trim_front(s))
}

pub open spec fn is_dash(b: u8) -> bool {
    b == 45
}

/// Bytes split at every `-` (as `str::split` does: `n` dashes give `n + 1`
/// pieces, some possibly empty).
pub open spec fn split_dash(bs: Seq<u8>) -> Seq<Seq<u8>>
    decreases bs.len(),
{
    if bs.len() == 0 {
        seq![Seq::<u8>::empty()]
    } else {
        let prev = split_dash(bs.drop_last());
        if is_dash(bs.last()) {
            prev.push(Seq::<u8>::empty())
        } else {
            prev.update(prev.len() - 1, prev.last().push(bs.last()))
        }
    }
}

/// Index of the last `-`, if any.
pub open spec fn last_dash(bs: Seq<u8>) -> Option<int>
    decreases bs.len(),
{
    if bs.len() == 0 {
        None
    } else if is_dash(bs.last()) {
        Some(bs.len() - 1)
    } else {
        last_dash(bs.drop_last())
    }
}

/// The value of a base-36 digit, either case.
pub open spec fn digit_value(b: u8) -> Option<nat> {
    if 48 <= b <= 57 {
        Some((b - 48) as nat)
    } else if 97 <= b <= 122 {
        Some((b - 87) as nat)
    } else if 65 <= b <= 90 {
        Some((b - 55) as nat)
    } else {
        None
    }
}

pub open spec fn all_digits(ds: Seq<u8>) -> bool {
    forall|k: int| 0 <= k < ds.len() ==> (#[trigger] digit_value(ds[k])) is Some
}

pub open spec fn digits_value(ds: Seq<u8>) -> nat
    decreases ds.len(),
{
    if ds.len() == 0 {
        0
    } else {
        digits_value(ds.drop_last()) * 36 + digit_value(ds.last()).unwrap()
    }
}

/// The digits of an unsigned number's text: one leading `+` is allowed
/// before at least one digit.
pub open spec fn unsigned_digits(seg: Seq<u8>) -> Seq<u8> {
    if seg.len() > 1 && seg[0] == 43 {
        seg.skip(1)
    } else {
        seg
    }
}

/// A base-36 number no greater than `max`, read as `from_str_radix` reads
/// an unsigned integer.
pub open spec fn parse_base36(seg: Seq<u8>, max: nat) -> Option<nat> {
    let ds = unsigned_digits(seg);
    if ds.len() > 0 && all_digits(ds) && digits_value(ds) <= max {
        Some(digits_value(ds))
    } else {
        None
    }
}

/// The largest value of the `j`-th number of a key: seeds and user data are
/// 64-bit, check values 32-bit.
pub open spec fn bound(j: int) -> nat {
    if j < 6 {
        u64::MAX as nat
    } else {
        u32::MAX as nat
    }
}

/// The pieces of a key's text form read as a key: at least the two seeds,
/// at most sixteen check values, every piece a number in range.
pub open spec fn fancy_ok(segs: Seq<Seq<u8>>) -> bool {
    &&& 2 <= segs.len() <= 22
    &&& forall|j: int| 0 <= j < segs.len() ==> (#[trigger] parse_base36(segs[j], bound(j))) is Some
}

/// The numbers those pieces give; missing user data and check values are 0.
pub open spec fn parsed_numbers(segs: Seq<Seq<u8>>) -> Seq<nat> {
    Seq::new(
        22,
        |j: int|
            if j < segs.len() {
                parse_base36(segs[j], bound(j)).unwrap()
            } else {
                0
            },
    )
}

/// `r` is what reading the text form `bs` gives.
pub open spec fn fancy_result(bs: Seq<u8>, r: Option<Key>) -> bool {
    &&& (r is Some <==> fancy_ok(split_dash(bs)))
    &&& (r is Some ==> key_numbers(r.unwrap()) == parsed_numbers(split_dash(bs)))
}

/// `r` is the key in a full key string (text form, `-`, checksum).
pub open spec fn parses_to(bs: Seq<u8>, r: Option<Key>) -> bool {
    match last_dash(bs) {
        None => r is None,
        Some(i) => fancy_result(bs.take(i), r),
    }
}

pub open spec fn ascii_bytes(cs: Seq<char>) -> Seq<u8> {
    cs.map_values(|c: char| (c as u32) as u8)
}

/// The part after the last `-` (at `i`) is the checksum of the key before it.
pub open spec fn checksum_matches(bs: Seq<u8>, i: int) -> bool {
    let segs = split_dash(bs.take(i));
    &&& fancy_ok(segs)
    &&& bs.skip(i + 1) == ascii_bytes(checksum_of(parsed_numbers(segs)))
}

/// The check of a full key string. With no `-` or a checksum that does not
/// match, `Invalid`. Otherwise the key is read from the text before the
/// checksum with its last piece dropped (so the last check value reads as
/// 0); if that cannot be read, `Faux`; else the key's own check.
pub open spec fn text_validity(bs: Seq<u8>) -> KeyValidity {
    match last_dash(bs) {
        None => KeyValidity::Invalid,
        Some(i) => if !checksum_matches(bs, i) {
            KeyValidity::Invalid
        } else {
            let t = bs.take(i);
            match last_dash(t) {
                None => KeyValidity::Faux,
                Some(j) => if fancy_ok(split_dash(t.take(j))) {
                    validity_of(parsed_numbers(split_dash(t.take(j))))
                } else {
                    KeyValidity::Faux
                },
            }
        },
    }
}

proof fn lemma_digits_monotone(ds: Seq<u8>, i: int, j: int)
    requires
        0 <= i <= j <= ds.len(),
    ensures
        digits_value(ds.take(i)) <= digits_value(ds.take(j)),
    decreases j - i,
{
    if i < j {
        lemma_digits_monotone(ds, i, j - 1);
        assert(ds.take(j).drop_last() =~= ds.take(j - 1));
        let p = digits_value(ds.take(j - 1));
        assert(p <= p * 36) by (nonlinear_arith);
    }
}

proof fn lemma_step_overflow(acc: nat, d: nat, max: nat)
    requires
        d <= max,
        acc > (max - d) / 36,
    ensures
        acc * 36 + d > max,
{
    assert(acc * 36 + d > max) by (nonlinear_arith)
        requires
            d <= max,
            acc > (max - d) / 36,
    ;
}

fn parse_number(seg: &Vec<u8>, max: u64) -> (r: Option<u64>)
    requires
        max >= 35,
    ensures
        match r {
            Some(v) => parse_base36(seg@, max as nat) == Some(v as nat),
            None => parse_base36(seg@, max as nat) is None,
        },
{
    let start: usize = if seg.len() > 1 && seg[0] == 43 {
        1
    } else {
        0
    };
    let ghost ds = unsigned_digits(seg@);
    proof {
        assert(ds =~= seg@.skip(start as int));
    }
    if start >= seg.len() {
        return None;
    }
    let mut acc: u64 = 0;
    let mut i: usize = start;
    proof {
        assert(ds.take(0) =~= Seq::<u8>::empty());
    }
    while i < seg.len()
        invariant
            start <= i <= seg@.len(),
            start < seg@.len(),
            ds == seg@.skip(start as int),
            ds == unsigned_digits(seg@),
            all_digits(ds.take(i - start)),
            acc as nat == digits_value(ds.take(i - start)),
            acc <= max,
            max >= 35,
        decreases seg.len() - i,
    {
        let b = seg[i];
        let ghost k = i - start;
        proof {
            assert(ds[k] == b);
            assert(ds.take(k + 1).drop_last() =~= ds.take(k));
            assert(ds.take(k + 1).last() == b);
        }
        let d: u64 = if 48 <= b && b <= 57 {
            (b - 48) as u64
        } else if 97 <= b && b <= 122 {
            (b - 87) as u64
        } else if 65 <= b && b <= 90 {
            (b - 55) as u64
        } else {
            proof {
                assert(digit_value(ds[k]) is None);
                assert(!all_digits(ds));
            }
            return None;
        };
        proof {
            assert(digit_value(b) == Some(d as nat));
            assert(digits_value(ds.take(k + 1)) == acc * 36 + d);
        }
        if acc > (max - d) / 36 {
            proof {
                lemma_step_overflow(acc as nat, d as nat, max as nat);
                lemma_digits_monotone(ds, k + 1, ds.len() as int);
                assert(ds.take(ds.len() as int) =~= ds);
            }
            return None;
        }
        proof {
            assert(acc * 36 + d <= max) by (nonlinear_arith)
                requires
                    acc <= (max - d) / 36,
                    d <= max,
            ;
            assert forall|m: int| 0 <= m < k + 1 implies (#[trigger] digit_value(
                ds.take(k + 1)[m],
            )) is Some by {
                if m < k {
                    assert(ds.take(k + 1)[m] == ds.take(k)[m]);
                }
            }
        }
        acc = acc * 36 + d;
        i = i + 1;
    }
    proof {
        assert(ds.take(ds.len() as int) =~= ds);
    }
    Some(acc)
}

/// Index of the last `-` among the first `end` bytes.
fn rfind_dash(bs: &[u8], end: usize) -> (r: Option<usize>)
    requires
        end <= bs@.len(),
    ensures
        match r {
            Some(i) => last_dash(bs@.take(end as int)) == Some(i as int) && i < end,
            None => last_dash(bs@.take(end as int)) is None,
        },
{
    proof {
        lemma_last_dash(bs@.take(end as int));
    }
    let mut k: usize = end;
    while k > 0
        invariant
            k <= end <= bs@.len(),
            last_dash(bs@.take(end as int)) == last_dash(bs@.take(k as int)),
        decreases k,
    {
        proof {
            assert(bs@.take(k as int).drop_last() =~= bs@.take(k - 1));
        }
        if bs[k - 1] == 45 {
            return Some(k - 1);
        }
        k = k - 1;
    }
    None
}

proof fn lemma_last_dash(bs: Seq<u8>)
    ensures
        match last_dash(bs) {
            Some(i) => 0 <= i < bs.len() && is_dash(bs[i]),
            None => true,
        },
    decreases bs.len(),
{
    if bs.len() > 0 && !is_dash(bs.last()) {
        lemma_last_dash(bs.drop_last());
    }
}

/// The pieces of the first `end` bytes, split at every `-`.
fn split_dash_exec(bs: &[u8], end: usize) -> (r: Vec<Vec<u8>>)
    requires
        end <= bs@.len(),
    ensures
        r@.len() == split_dash(bs@.take(end as int)).len(),
        forall|k: int| 0 <= k < r@.len() ==> (#[trigger] r@[k])@ == split_dash(bs@.take(end as int))[k],
{
    let mut done: Vec<Vec<u8>> = Vec::new();
    let mut cur: Vec<u8> = Vec::new();
    let ghost mut dv: Seq<Seq<u8>> = Seq::empty();
    let mut i: usize = 0;
    proof {
        assert(bs@.take(0) =~= Seq::<u8>::empty());
    }
    while i < end
        invariant
            i <= end <= bs@.len(),
            dv.len() == done@.len(),
            forall|k: int| 0 <= k < dv.len() ==> (#[trigger] done@[k])@ == dv[k],
            split_dash(bs@.take(i as int)) == dv.push(cur@),
        decreases end - i,
    {
        let b = bs[i];
        proof {
            assert(bs@.take(i + 1).drop_last() =~= bs@.take(i as int));
            assert(bs@.take(i + 1).last() == b);
        }
        if b == 45 {
            let piece = cur;
            cur = Vec::new();
            proof {
                dv = dv.push(piece@);
            }
            done.push(piece);
            proof {
                assert(split_dash(bs@.take(i + 1)) =~= dv.push(cur@));
            }
        } else {
            let ghost before = cur@;
            cur.push(b);
            proof {
                assert(split_dash(bs@.take(i + 1)) =~= dv.push(cur@));
            }
        }
        i = i + 1;
    }
    let ghost last = cur@;
    done.push(cur);
    proof {
        assert(split_dash(bs@.take(end as int)) =~= dv.push(last));
    }
    done
}

/// Reads a key from its text form in the first `end` bytes.
fn parse_fancy(bs: &[u8], end: usize) -> (r: Option<Key>)
    requires
        end <= bs@.len(),
    ensures
        fancy_result(bs@.take(end as int), r),
{
    let segs = split_dash_exec(bs, end);
    let ghost ss = split_dash(bs@.take(end as int));
    let n = segs.len();
    if n < 2 || n > 22 {
        return None;
    }
    let mut key = Key { seed: (0, 0), values: [0; 16], userdata: [0; 4] };
    let mut j: usize = 0;
    while j < n
        invariant
            2 <= n <= 22,
            ss == split_dash(bs@.take(end as int)),
            n == ss.len(),
            segs@.len() == n,
            forall|k: int| 0 <= k < n ==> (#[trigger] segs@[k])@ == ss[k],
            j <= n,
            forall|k: int| 0 <= k < j ==> (#[trigger] parse_base36(ss[k], bound(k))) is Some,
            key_numbers(key).len() == 22,
            forall|k: int|
                0 <= k < 22 ==> #[trigger] key_numbers(key)[k] == (if k < j {
                    parse_base36(ss[k], bound(k)).unwrap()
                } else {
                    0
                }),
        decreases n - j,
    {
        let max: u64 = if j < 6 {
            u64::MAX
        } else {
            u32::MAX as u64
        };
        let v = match parse_number(&segs[j], max) {
            Some(v) => v,
            None => {
                proof {
                    assert(parse_base36(ss[j as int], bound(j as int)) is None);
                }
                return None;
            },
        };
        let ghost before = key_numbers(key);
        if j == 0 {
            key.seed = (v, key.seed.1);
        } else if j == 1 {
            key.seed = (key.seed.0, v);
        } else if j < 6 {
            key.userdata[j - 2] = v;
        } else {
            key.values[j - 6] = v as u32;
        }
        proof {
            assert forall|k: int| 0 <= k < 22 && k != j implies #[trigger] key_numbers(key)[k]
                == before[k] by {}
            assert(key_numbers(key)[j as int] == v as nat);
        }
        j = j + 1;
    }
    proof {
        assert(key_numbers(key) =~= parsed_numbers(ss));
    }
    Some(key)
}

impl Key {
    /// Reads the key in a full key string: the text form before the last
    /// `-`; the checksum after it is not looked at. `None` when there is no
    /// `-` or the text form cannot be read: fewer than two pieces, more than
    /// sixteen check values, or a piece that is not a base-36 number in range.
    pub fn parse_key(s: &str) -> (r: Option<Key>)
        ensures
            parses_to(s.spec_bytes(), r),
    {
        let bs = s.as_bytes();
        match rfind_dash(bs, bs.len()) {
            None => {
                proof {
                    assert(bs@.take(bs@.len() as int) =~= bs@);
                }
                None
            },
            Some(i) => {
                proof {
                    assert(bs@.take(bs@.len() as int) =~= bs@);
                }
                parse_fancy(bs, i)
            },
        }
    }

    /// Checks a full key string with the surrounding white space already
    /// removed; see `text_validity`.
    pub fn check_trimmed_key(t: &str) -> (r: KeyValidity)
        ensures
            r == text_validity(t.spec_bytes()),
    {
        let bs = t.as_bytes();
        proof {
            assert(bs@.take(bs@.len() as int) =~= bs@);
        }
        let i = match rfind_dash(bs, bs.len()) {
            Some(i) => i,
            None => {
                return KeyValidity::Invalid;
            },
        };
        if !check_checksum(bs, i) {
            return KeyValidity::Invalid;
        }
        proof {
            assert(bs@.take(i as int).take(i as int) =~= bs@.take(i as int));
        }
        match rfind_dash(bs, i) {
            None => KeyValidity::Faux,
            Some(j) => {
                proof {
                    assert(bs@.take(i as int).take(j as int) =~= bs@.take(j as int));
                }
                match parse_fancy(bs, j) {
                    Some(k) => k.check_key(),
                    // The checksum matched, yet the key does not read.
                    None => KeyValidity::Faux,
                }
            },
        }
    }

    /// Checks a full key string, ignoring surrounding white space.
    pub fn check_key_from_string(s: &str) -> (r: KeyValidity)
        ensures
            r == text_validity(vstd::utf8::encode_utf8(trimmed(s@))),
    {
        let t = trim(s);
        Self::check_trimmed_key(t)
    }
}

/// Whether the bytes after the `-` at `i` are the checksum of the key before it.
fn check_checksum(bs: &[u8], i: usize) -> (r: bool)
    requires
        i < bs@.len(),
    ensures
        r == checksum_matches(bs@, i as int),
{
    let k = match parse_fancy(bs, i) {
        Some(k) => k,
        None => {
            return false;
        },
    };
    let cs = k.checksum_chars();
    let ghost want = ascii_bytes(cs@);
    let ghost have = bs@.skip(i + 1);
    let total = bs.len();
    if total - (i + 1) != cs.len() {
        proof {
            assert(have.len() != want.len());
        }
        return false;
    }
    let mut m: usize = 0;
    while m < cs.len()
        invariant
            i + 1 + cs@.len() == bs@.len(),
            i < bs@.len(),
            total == bs@.len(),
            fancy_ok(split_dash(bs@.take(i as int))),
            cs@ == checksum_of(parsed_numbers(split_dash(bs@.take(i as int)))),
            m <= cs@.len(),
            forall|q: int| 0 <= q < cs@.len() ==> (#[trigger] cs@[q] as u32) < 128,
            want == ascii_bytes(cs@),
            have == bs@.skip(i + 1),
            forall|q: int| 0 <= q < m ==> have[q] == want[q],
        decreases cs.len() - m,
    {
        let code: u32 = cs[m] as u32;
        let byte: u8 = #[verifier::truncate] (code as u8);
        if bs[i + 1 + m] != byte {
            proof {
                assert(have[m as int] != want[m as int]);
            }
            return false;
        }
        m = m + 1;
    }
    proof {
        assert(have =~= want);
    }
    true
}

} // verus!
