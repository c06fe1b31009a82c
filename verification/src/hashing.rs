use vstd::prelude::*;
use vstd::utf8::encode_utf8;

verus! {

/// 64-bit FNV-1a offset basis.
pub const FNV_OFFSET: u64 = 0xcbf29ce484222325;

/// 64-bit FNV-1a prime.
pub const FNV_PRIME: u64 = 0x100000001b3;

/// One FNV-1a step: fold one byte into the running hash.
pub open spec fn fnv_step(h: u64, b: u8) -> u64 {
    vstd::wrapping::u64_specs::wrapping_mul(h ^ (b as u64), FNV_PRIME)
}

/// Fold a byte sequence into the running hash, left to right.
pub open spec fn fnv_bytes_spec(h: u64, bytes: Seq<u8>) -> u64
    decreases bytes.len(),
{
    if bytes.len() == 0 {
        h
    } else {
        fnv_step(fnv_bytes_spec(h, bytes.drop_last()), bytes.last())
    }
}

/// Fold a string's UTF-8 bytes into the running hash, then a terminator, so
/// that distinct string sequences cannot collide by concatenation.
pub open spec fn fnv_str_spec(h: u64, s: Seq<char>) -> u64 {
    fnv_step(fnv_bytes_spec(h, encode_utf8(s)), 0xff)
}

/// Fold a sequence of strings into the running hash, left to right.
pub open spec fn fnv_strs_spec(h: u64, strs: Seq<Seq<char>>) -> u64
    decreases strs.len(),
{
    if strs.len() == 0 {
        h
    } else {
        fnv_str_spec(fnv_strs_spec(h, strs.drop_last()), strs.last())
    }
}

/// Fold a slice of bytes into the running hash.
pub fn fnv_bytes(h: u64, bytes: &[u8]) -> (r: u64)
    ensures
        r == fnv_bytes_spec(h, bytes@),
{
    let mut acc: u64 = h;
    let mut i: usize = 0;
    while i < bytes.len()
        invariant
            i <= bytes@.len(),
            acc == fnv_bytes_spec(h, bytes@.subrange(0, i as int)),
        decreases bytes@.len() - i,
    {
        let b = bytes[i];
        acc = (acc ^ (b as u64)).wrapping_mul(FNV_PRIME);
        i = i + 1;
        proof {
            let pre = bytes@.subrange(0, i - 1);
            let cur = bytes@.subrange(0, i as int);
            assert(cur.drop_last() =~= pre);
            assert(cur.last() == b);
        }
    }
    proof {
        assert(bytes@.subrange(0, bytes@.len() as int) =~= bytes@);
    }
    acc
}

/// Fold a string's UTF-8 bytes and terminator into the running hash.
pub fn fnv_str(h: u64, s: &str) -> (r: u64)
    ensures
        r == fnv_str_spec(h, s@),
{
    let bs = s.as_bytes();
    let folded = fnv_bytes(h, bs);
    (folded ^ 0xffu64).wrapping_mul(FNV_PRIME)
}

/// Byte-wise lexicographic order on byte sequences.
pub open spec fn le_bytes(a: Seq<u8>, b: Seq<u8>) -> bool
    decreases a.len(),
{
    if a.len() == 0 {
        true
    } else if b.len() == 0 {
        false
    } else if a[0] < b[0] {
        true
    } else if a[0] > b[0] {
        false
    } else {
        le_bytes(a.drop_first(), b.drop_first())
    }
}

/// Order on strings: byte-wise lexicographic over their UTF-8 encodings.
pub open spec fn le_str(a: Seq<char>, b: Seq<char>) -> bool {
    le_bytes(encode_utf8(a), encode_utf8(b))
}

/// Compares two strings in byte-wise lexicographic order.
pub fn str_le(a: &str, b: &str) -> (r: bool)
    ensures
        r == le_str(a@, b@),
{
    let ab = a.as_bytes();
    let bb = b.as_bytes();
    let ghost av = ab@;
    let ghost bv = bb@;
    proof {
        assert(av == encode_utf8(a@));
        assert(bv == encode_utf8(b@));
        assert(av.skip(0) =~= av);
        assert(bv.skip(0) =~= bv);
    }
    let mut i: usize = 0;
    while i < ab.len() && i < bb.len()
        invariant
            av == ab@,
            bv == bb@,
            av == encode_utf8(a@),
            bv == encode_utf8(b@),
            i <= av.len(),
            i <= bv.len(),
            le_bytes(av, bv) == le_bytes(av.skip(i as int), bv.skip(i as int)),
        decreases av.len() - i,
    {
        let x = ab[i];
        let y = bb[i];
        proof {
            let sa = av.skip(i as int);
            let sb = bv.skip(i as int);
            assert(sa[0] == x && sb[0] == y);
            assert(sa.drop_first() =~= av.skip(i as int + 1));
            assert(sb.drop_first() =~= bv.skip(i as int + 1));
        }
        if x < y {
            return true;
        }
        if x > y {
            return false;
        }
        i = i + 1;
    }
    proof {
        if i as int == av.len() {
            assert(av.skip(i as int) =~= Seq::<u8>::empty());
        } else {
            assert(bv.skip(i as int) =~= Seq::<u8>::empty());
            assert(av.skip(i as int).len() > 0);
        }
    }
    ab.len() <= bb.len()
}

/// Inserts a string into an already sorted string sequence, keeping order.
pub open spec fn sorted_insert(s: Seq<Seq<char>>, x: Seq<char>) -> Seq<Seq<char>>
    decreases s.len(),
{
    if s.len() == 0 {
        seq![x]
    } else if le_str(x, s[0]) {
        seq![x] + s
    } else {
        seq![s[0]] + sorted_insert(s.drop_first(), x)
    }
}

/// Sorts a string sequence by repeated ordered insertion.
pub open spec fn sort_strs(s: Seq<Seq<char>>) -> Seq<Seq<char>>
    decreases s.len(),
{
    if s.len() == 0 {
        Seq::empty()
    } else {
        sorted_insert(sort_strs(s.drop_last()), s[s.len() - 1])
    }
}

/// The character sequences of a vector of strings, in order.
pub open spec fn str_views(s: Seq<String>) -> Seq<Seq<char>> {
    Seq::new(s.len(), |i: int| s[i]@)
}

proof fn lemma_sorted_insert_split(s: Seq<Seq<char>>, x: Seq<char>, i: int)
    requires
        0 <= i <= s.len(),
        forall|j: int| 0 <= j < i ==> !le_str(x, #[trigger] s[j]),
        i < s.len() ==> le_str(x, s[i]),
    ensures
        sorted_insert(s, x) == s.subrange(0, i) + seq![x] + s.skip(i),
    decreases i,
{
    if i == 0 {
        if s.len() == 0 {
            assert(sorted_insert(s, x) =~= s.subrange(0, 0) + seq![x] + s.skip(0));
        } else {
            assert(sorted_insert(s, x) =~= s.subrange(0, 0) + seq![x] + s.skip(0));
        }
    } else {
        let rest = s.drop_first();
        assert(forall|j: int| 0 <= j < i - 1 ==> !le_str(x, #[trigger] rest[j]));
        assert(i - 1 < rest.len() ==> le_str(x, rest[i - 1]));
        lemma_sorted_insert_split(rest, x, i - 1);
        assert(!le_str(x, s[0]));
        assert(seq![s[0]] + (rest.subrange(0, i - 1) + seq![x] + rest.skip(i - 1)) =~= s.subrange(
            0,
            i,
        ) + seq![x] + s.skip(i));
        assert(sorted_insert(s, x) =~= s.subrange(0, i) + seq![x] + s.skip(i));
    }
}

/// Inserts a string into a sorted vector of strings, keeping order.
fn insert_sorted(sorted: &Vec<String>, x: String) -> (r: Vec<String>)
    ensures
        str_views(r@) == sorted_insert(str_views(sorted@), x@),
{
    let ghost sv = str_views(sorted@);
    let mut out: Vec<String> = Vec::new();
    let mut i: usize = 0;
    while i < sorted.len() && !str_le(x.as_str(), sorted[i].as_str())
        invariant
            i <= sorted@.len(),
            sv == str_views(sorted@),
            out@.len() == i as nat,
            forall|j: int| 0 <= j < i as int ==> out@[j]@ == sorted@[j]@,
            forall|j: int| 0 <= j < i as int ==> !le_str(x@, #[trigger] sv[j]),
        decreases sorted@.len() - i,
    {
        out.push(sorted[i].clone());
        i = i + 1;
    }
    let ghost cut = i as int;
    let ghost xv = x@;
    let ghost target = sorted_insert(sv, x@);
    proof {
        lemma_sorted_insert_split(sv, x@, cut);
        assert(target == sv.subrange(0, cut) + seq![xv] + sv.skip(cut));
        assert(target.len() == sv.len() + 1);
    }
    out.push(x);
    let mut k: usize = i;
    while k < sorted.len()
        invariant
            target == sorted_insert(sv, xv),
            target == sv.subrange(0, cut) + seq![xv] + sv.skip(cut),
            target.len() == sv.len() + 1,
            0 <= cut <= k as int,
            k as int <= sorted@.len(),
            sv == str_views(sorted@),
            out@.len() == k as int + 1,
            forall|j: int| 0 <= j < cut ==> out@[j]@ == sv[j],
            out@[cut]@ == xv,
            forall|j: int| cut < j <= k as int ==> out@[j]@ == sv[j - 1],
        decreases sorted@.len() - k,
    {
        out.push(sorted[k].clone());
        k = k + 1;
    }
    proof {
        assert forall|j: int| 0 <= j < target.len() implies str_views(out@)[j] == target[j] by {
            if j < cut {
                assert(target[j] == sv[j]);
            } else if j == cut {
                assert(target[j] == xv);
            } else {
                assert(target[j] == sv.skip(cut)[j - cut - 1]);
                assert(sv.skip(cut)[j - cut - 1] == sv[j - 1]);
            }
        }
        assert(str_views(out@) =~= target);
    }
    out
}

/// Sorts a vector of strings in byte-wise lexicographic order by ordered
/// insertion.
pub fn sort_strings(keys: Vec<String>) -> (r: Vec<String>)
    ensures
        str_views(r@) == sort_strs(str_views(keys@)),
{
    let ghost kv = str_views(keys@);
    let mut out: Vec<String> = Vec::new();
    let mut i: usize = 0;
    proof {
        assert(str_views(out@) =~= sort_strs(kv.subrange(0, 0)));
    }
    while i < keys.len()
        invariant
            i <= keys@.len(),
            kv == str_views(keys@),
            str_views(out@) == sort_strs(kv.subrange(0, i as int)),
        decreases keys@.len() - i,
    {
        let x = keys[i].clone();
        out = insert_sorted(&out, x);
        proof {
            let sub1 = kv.subrange(0, i as int + 1);
            assert(sub1.drop_last() =~= kv.subrange(0, i as int));
            assert(sub1[sub1.len() - 1] == kv[i as int]);
        }
        i = i + 1;
    }
    proof {
        assert(kv.subrange(0, keys@.len() as int) =~= kv);
    }
    out
}

/// The nibble of `h` at position `i`, most significant first.
pub open spec fn nibble(h: u64, i: int) -> u64 {
    (h >> ((15 - i) * 4) as u64) & 0xf
}

/// The lower-case hexadecimal digit for a value below sixteen.
pub open spec fn hex_digit(n: u64) -> char {
    if n == 0 { '0' } else if n == 1 { '1' } else if n == 2 { '2' }
    else if n == 3 { '3' } else if n == 4 { '4' } else if n == 5 { '5' }
    else if n == 6 { '6' } else if n == 7 { '7' } else if n == 8 { '8' }
    else if n == 9 { '9' } else if n == 10 { 'a' } else if n == 11 { 'b' }
    else if n == 12 { 'c' } else if n == 13 { 'd' } else if n == 14 { 'e' }
    else { 'f' }
}

/// Sixteen lower-case hexadecimal digits of `h`, most significant first.
pub open spec fn hex16_spec(h: u64) -> Seq<char> {
    Seq::new(16, |i: int| hex_digit(nibble(h, i)))
}

fn hex_digit_str(n: u64) -> (r: &'static str)
    requires
        n < 16,
    ensures
        r@ =~= seq![hex_digit(n)],
{
    let r: &'static str = if n == 0 { "0" } else if n == 1 { "1" } else if n == 2 { "2" }
    else if n == 3 { "3" } else if n == 4 { "4" } else if n == 5 { "5" }
    else if n == 6 { "6" } else if n == 7 { "7" } else if n == 8 { "8" }
    else if n == 9 { "9" } else if n == 10 { "a" } else if n == 11 { "b" }
    else if n == 12 { "c" } else if n == 13 { "d" } else if n == 14 { "e" }
    else { "f" };
    proof {
        reveal_strlit("0"); reveal_strlit("1"); reveal_strlit("2"); reveal_strlit("3");
        reveal_strlit("4"); reveal_strlit("5"); reveal_strlit("6"); reveal_strlit("7");
        reveal_strlit("8"); reveal_strlit("9"); reveal_strlit("a"); reveal_strlit("b");
        reveal_strlit("c"); reveal_strlit("d"); reveal_strlit("e"); reveal_strlit("f");
    }
    r
}

proof fn lemma_nibble_bound(y: u64)
    ensures
        (y & 0xf) < 16,
{
    assert((y & 0xf) < 16) by (bit_vector);
}

/// Renders `h` as sixteen lower-case hexadecimal digits, most significant
/// nibble first.
pub fn hex16(h: u64) -> (r: String)
    ensures
        r@ == hex16_spec(h),
{
    let mut out = String::new();
    let mut i: usize = 0;
    while i < 16
        invariant
            i <= 16,
            out@ =~= hex16_spec(h).subrange(0, i as int),
        decreases 16 - i,
    {
        let shift: u64 = ((15 - i) * 4) as u64;
        let d: u64 = (h >> shift) & 0xf;
        proof {
            lemma_nibble_bound(h >> shift);
            assert(d == nibble(h, i as int));
        }
        let ds = hex_digit_str(d);
        out.append(ds);
        i = i + 1;
        proof {
            assert(out@ =~= hex16_spec(h).subrange(0, i as int));
        }
    }
    proof {
        assert(hex16_spec(h).subrange(0, 16) =~= hex16_spec(h));
    }
    out
}

} // verus!
