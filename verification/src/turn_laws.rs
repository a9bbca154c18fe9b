//! What tells one turn of the assistant from another, and what counts as a loop.

use crate::json::JsonV;
use crate::state::{
    assistant_positions, calls_of, calls_signature, fnv, fnv_step, has_role, last_with_role,
    push_hash, signature, streak, trailing, work_signature, StateV,
};
use vstd::prelude::*;
use vstd::utf8::encode_utf8;

verus! {

/// The bytes of a text that stands under a key, where there is one.
pub open spec fn bytes_at(v: JsonV, k: Seq<char>) -> Seq<u8> {
    match v.get(k) {
        Some(JsonV::Str(s)) => encode_utf8(s),
        _ => Seq::empty(),
    }
}

/// The calls that stand in a message.
pub open spec fn listed_calls(m: JsonV) -> Seq<JsonV> {
    match m.get("tool_calls"@) {
        Some(JsonV::Array(a)) => a,
        _ => Seq::empty(),
    }
}

/// The name of the tool of a call, and its arguments, in bytes.
pub open spec fn called(tc: JsonV) -> (Seq<u8>, Seq<u8>) {
    match tc.get("function"@) {
        Some(f) => (bytes_at(f, "name"@), bytes_at(f, "arguments"@)),
        None => (Seq::empty(), Seq::empty()),
    }
}

/// Whether two texts agree in their first 200 bytes.
pub open spec fn same_start(a: Seq<u8>, b: Seq<u8>) -> bool {
    if a.len() <= 200 || b.len() <= 200 {
        a == b || a.len() >= 200 && b.len() >= 200 && a.take(200) == b.take(200)
    } else {
        a.take(200) == b.take(200)
    }
}

/// Whether two texts agree in their last 1000 bytes.
pub open spec fn same_end(a: Seq<u8>, b: Seq<u8>) -> bool {
    a == b || a.len() >= 1000 && b.len() >= 1000 && a.skip(a.len() - 1000) == b.skip(
        b.len() - 1000,
    )
}

proof fn lemma_cancel<T>(a: Seq<T>, b: Seq<T>, x: Seq<T>)
    ensures
        a + x == b + x ==> a == b,
        x + a == x + b ==> a == b,
{
    if a + x == b + x {
        assert((a + x).len() == (b + x).len());
        assert forall|i: int| 0 <= i < a.len() implies a[i] == b[i] by {
            assert((a + x)[i] == (b + x)[i]);
        }
        assert(a =~= b);
    }
    if x + a == x + b {
        assert((x + a).len() == (x + b).len());
        assert forall|i: int| 0 <= i < a.len() implies a[i] == b[i] by {
            assert((x + a)[x.len() + i] == (x + b)[x.len() + i]);
        }
        assert(a =~= b);
    }
}

proof fn lemma_empty_text()
    ensures
        encode_utf8(Seq::<char>::empty()) == Seq::<u8>::empty(),
{
    reveal_with_fuel(encode_utf8, 1);
}

/// The signature of the first `n` calls is made of the names and the starts of the arguments.
proof fn lemma_calls_piece(calls: Seq<JsonV>, n: int)
    requires
        0 < n <= calls.len(),
    ensures
        calls_signature(calls, n) == calls_signature(calls, n - 1) + called(calls[n - 1]).0
            + crate::state::first_bytes(called(calls[n - 1]).1, 200),
{
    lemma_empty_text();
}

/// Whether two lists of calls are the same but for the call at `j`.
pub open spec fn same_but(a: Seq<JsonV>, b: Seq<JsonV>, j: int) -> bool {
    &&& a.len() == b.len()
    &&& 0 <= j < a.len()
    &&& forall|i: int|
        0 <= i < a.len() && i != j ==> called(#[trigger] a[i]) == called(#[trigger] b[i])
}

proof fn lemma_calls_differ(a: Seq<JsonV>, b: Seq<JsonV>, j: int, n: int)
    requires
        same_but(a, b, j),
        0 <= n <= a.len(),
    ensures
        n <= j ==> calls_signature(a, n) == calls_signature(b, n),
        n > j && calls_signature(a, n) == calls_signature(b, n) ==> called(a[j]).0
            + crate::state::first_bytes(called(a[j]).1, 200) == called(b[j]).0
            + crate::state::first_bytes(called(b[j]).1, 200),
        called(a[j]) == called(b[j]) ==> calls_signature(a, n) == calls_signature(b, n),
    decreases n,
{
    if n > 0 {
        lemma_calls_differ(a, b, j, n - 1);
        lemma_calls_piece(a, n);
        lemma_calls_piece(b, n);
        let x = called(a[n - 1]).0 + crate::state::first_bytes(called(a[n - 1]).1, 200);
        let y = called(b[n - 1]).0 + crate::state::first_bytes(called(b[n - 1]).1, 200);
        assert(calls_signature(a, n) =~= calls_signature(a, n - 1) + x);
        assert(calls_signature(b, n) =~= calls_signature(b, n - 1) + y);
        if n - 1 == j {
            lemma_cancel(x, y, calls_signature(a, n - 1));
        } else {
            lemma_cancel(calls_signature(a, n - 1), calls_signature(b, n - 1), x);
        }
    }
}

proof fn lemma_nonempty_work(m: JsonV, j: int)
    requires
        0 <= j < listed_calls(m).len(),
        called(listed_calls(m)[j]).0.len() > 0,
    ensures
        work_signature(m).len() > 0,
        calls_signature(listed_calls(m), listed_calls(m).len() as int).len() > 0,
{
    lemma_calls_grow(listed_calls(m), j + 1, listed_calls(m).len() as int);
    lemma_calls_piece(listed_calls(m), j + 1);
    assert(calls_of(m) == listed_calls(m));
}

proof fn lemma_calls_grow(calls: Seq<JsonV>, i: int, n: int)
    requires
        0 <= i <= n <= calls.len(),
    ensures
        calls_signature(calls, i).len() <= calls_signature(calls, n).len(),
    decreases n - i,
{
    if i < n {
        lemma_calls_grow(calls, i, n - 1);
    }
}

/// Two turns with the same reasoning whose calls are the same but that one of them gets other
/// arguments have the same signature only if these arguments agree in their first 200 bytes.
pub proof fn lemma_arguments_tell_turns(m1: JsonV, m2: JsonV, j: int)
    requires
        bytes_at(m1, "reasoning"@) == bytes_at(m2, "reasoning"@),
        same_but(listed_calls(m1), listed_calls(m2), j),
        called(listed_calls(m1)[j]).0 == called(listed_calls(m2)[j]).0,
        called(listed_calls(m1)[j]).0.len() > 0,
        signature(m1) == signature(m2),
    ensures
        same_start(called(listed_calls(m1)[j]).1, called(listed_calls(m2)[j]).1),
{
    lemma_empty_text();
    lemma_nonempty_work(m1, j);
    lemma_nonempty_work(m2, j);
    let (a, b) = (listed_calls(m1), listed_calls(m2));
    let n = a.len() as int;
    assert(calls_of(m1) == a && calls_of(m2) == b);
    lemma_cancel(
        calls_signature(a, n),
        calls_signature(b, n),
        crate::state::last_bytes(bytes_at(m1, "reasoning"@), 1000),
    );
    lemma_calls_differ(a, b, j, n);
    let (x, y) = (called(a[j]).1, called(b[j]).1);
    lemma_cancel(
        crate::state::first_bytes(x, 200),
        crate::state::first_bytes(y, 200),
        called(a[j]).0,
    );
    if x.len() == 200 {
        assert(x.take(200) =~= x);
    }
    if y.len() == 200 {
        assert(y.take(200) =~= y);
    }
}

/// Two turns with the same reasoning whose calls are the same but that one of them is of
/// another tool have different signatures.
pub proof fn lemma_names_tell_turns(m1: JsonV, m2: JsonV, j: int)
    requires
        bytes_at(m1, "reasoning"@) == bytes_at(m2, "reasoning"@),
        same_but(listed_calls(m1), listed_calls(m2), j),
        called(listed_calls(m1)[j]).1 == called(listed_calls(m2)[j]).1,
        called(listed_calls(m1)[j]).0.len() > 0,
        called(listed_calls(m2)[j]).0.len() > 0,
        called(listed_calls(m1)[j]).0 != called(listed_calls(m2)[j]).0,
    ensures
        signature(m1) != signature(m2),
{
    lemma_empty_text();
    lemma_nonempty_work(m1, j);
    lemma_nonempty_work(m2, j);
    let (a, b) = (listed_calls(m1), listed_calls(m2));
    let n = a.len() as int;
    assert(calls_of(m1) == a && calls_of(m2) == b);
    lemma_cancel(
        calls_signature(a, n),
        calls_signature(b, n),
        crate::state::last_bytes(bytes_at(m1, "reasoning"@), 1000),
    );
    lemma_calls_differ(a, b, j, n);
    lemma_cancel(
        called(a[j]).0,
        called(b[j]).0,
        crate::state::first_bytes(called(a[j]).1, 200),
    );
}

/// Two turns with the same calls have the same signature only if their reasoning agrees in its
/// last 1000 bytes.
pub proof fn lemma_reasoning_tells_turns(m1: JsonV, m2: JsonV, j: int)
    requires
        same_but(listed_calls(m1), listed_calls(m2), j),
        called(listed_calls(m1)[j]) == called(listed_calls(m2)[j]),
        called(listed_calls(m1)[j]).0.len() > 0,
        signature(m1) == signature(m2),
    ensures
        same_end(bytes_at(m1, "reasoning"@), bytes_at(m2, "reasoning"@)),
{
    lemma_empty_text();
    lemma_nonempty_work(m1, j);
    lemma_nonempty_work(m2, j);
    let (a, b) = (listed_calls(m1), listed_calls(m2));
    let n = a.len() as int;
    assert(calls_of(m1) == a && calls_of(m2) == b);
    lemma_calls_differ(a, b, j, n);
    let (x, y) = (bytes_at(m1, "reasoning"@), bytes_at(m2, "reasoning"@));
    lemma_cancel(
        crate::state::last_bytes(x, 1000),
        crate::state::last_bytes(y, 1000),
        calls_signature(a, n),
    );
    if x.len() == 1000 {
        assert(x.skip(0) =~= x);
    }
    if y.len() == 1000 {
        assert(y.skip(0) =~= y);
    }
}

/// Two turns with the same reasoning that make the same calls have the same signature,
/// whatever their ids and texts.
pub proof fn lemma_same_work_same_signature(m1: JsonV, m2: JsonV, j: int)
    requires
        bytes_at(m1, "reasoning"@) == bytes_at(m2, "reasoning"@),
        same_but(listed_calls(m1), listed_calls(m2), j),
        called(listed_calls(m1)[j]) == called(listed_calls(m2)[j]),
        called(listed_calls(m1)[j]).0.len() > 0,
    ensures
        signature(m1) == signature(m2),
{
    lemma_empty_text();
    lemma_nonempty_work(m1, j);
    lemma_nonempty_work(m2, j);
    let (a, b) = (listed_calls(m1), listed_calls(m2));
    assert(calls_of(m1) == a && calls_of(m2) == b);
    lemma_calls_differ(a, b, j, a.len() as int);
}

/// Two turns without reasoning and calls have the same signature exactly if their texts agree
/// in their first 200 bytes.
pub proof fn lemma_texts_tell_turns(m1: JsonV, m2: JsonV)
    requires
        bytes_at(m1, "reasoning"@).len() == 0,
        bytes_at(m2, "reasoning"@).len() == 0,
        listed_calls(m1).len() == 0,
        listed_calls(m2).len() == 0,
    ensures
        signature(m1) == signature(m2) <==> same_start(
            bytes_at(m1, "content"@),
            bytes_at(m2, "content"@),
        ),
{
    lemma_empty_text();
    assert(calls_of(m1) == listed_calls(m1) && calls_of(m2) == listed_calls(m2));
    let (x, y) = (bytes_at(m1, "content"@), bytes_at(m2, "content"@));
    if x.len() == 200 {
        assert(x.take(200) =~= x);
    }
    if y.len() == 200 {
        assert(y.take(200) =~= y);
    }
    assert(work_signature(m1).len() == 0);
    assert(work_signature(m2).len() == 0);
}

// ---- hashes

proof fn lemma_multiple_is_zero(d: int, t: int)
    requires
        d == t * 0x1_0000_0000_0000_0000,
        -0x1_0000_0000_0000_0000 < d < 0x1_0000_0000_0000_0000,
    ensures
        d == 0,
{
    assert(t == 0) by (nonlinear_arith)
        requires
            d == t * 0x1_0000_0000_0000_0000,
            -0x1_0000_0000_0000_0000 < d < 0x1_0000_0000_0000_0000,
    ;
}

/// Different numbers stay different when they are multiplied by the prime of the hash.
proof fn lemma_prime_tells(x: u64, y: u64)
    requires
        x.wrapping_mul(0x100000001b3) == y.wrapping_mul(0x100000001b3),
    ensures
        x == y,
{
    let m: int = 0x1_0000_0000_0000_0000;
    let p: int = 0x100000001b3;
    let q: int = 14886173955864302971;
    let k: int = 887285111055;
    let (a, b) = (x as int * p, y as int * p);
    assert(a % m == b % m);
    vstd::arithmetic::div_mod::lemma_fundamental_div_mod(a, m);
    vstd::arithmetic::div_mod::lemma_fundamental_div_mod(b, m);
    let t = a / m - b / m;
    let d = x as int - y as int;
    assert(d * p == m * t) by (nonlinear_arith)
        requires
            a == x as int * p,
            b == y as int * p,
            d == x as int - y as int,
            a == m * (a / m) + a % m,
            b == m * (b / m) + b % m,
            a % m == b % m,
            t == a / m - b / m,
    ;
    assert(p * q == 1 + k * m);
    let u = t * q - k * d;
    assert(d == u * m) by (nonlinear_arith)
        requires
            d * p == m * t,
            p * q == 1 + k * m,
            u == t * q - k * d,
    {
        assert(d * (p * q) == (d * p) * q);
        assert(d * (1 + k * m) == d + d * (k * m));
        assert((m * t) * q == (t * q) * m);
        assert(d * (k * m) == (k * d) * m);
    }
    lemma_multiple_is_zero(d, u);
}

proof fn lemma_step_tells(h: u64, g: u64, b: u8, c: u8)
    ensures
        fnv_step(h, b) == fnv_step(h, c) ==> b == c,
        fnv_step(h, b) == fnv_step(g, b) ==> h == g,
{
    if fnv_step(h, b) == fnv_step(h, c) {
        lemma_prime_tells(h ^ (b as u64), h ^ (c as u64));
        let (x, y) = (b as u64, c as u64);
        assert(h ^ x == h ^ y ==> x == y) by (bit_vector);
    }
    if fnv_step(h, b) == fnv_step(g, b) {
        lemma_prime_tells(h ^ (b as u64), g ^ (b as u64));
        let x = b as u64;
        assert(h ^ x == g ^ x ==> h == g) by (bit_vector);
    }
}

proof fn lemma_hash_of_one_change(a: Seq<u8>, b: Seq<u8>, j: int, n: int)
    requires
        a.len() == b.len(),
        0 <= j < a.len(),
        a[j] != b[j],
        forall|i: int| 0 <= i < a.len() && i != j ==> a[i] == b[i],
        0 <= n <= a.len(),
    ensures
        n <= j ==> fnv(a, n) == fnv(b, n),
        n > j ==> fnv(a, n) != fnv(b, n),
    decreases n,
{
    if n > 0 {
        lemma_hash_of_one_change(a, b, j, n - 1);
        lemma_step_tells(fnv(a, n - 1), fnv(b, n - 1), a[n - 1], b[n - 1]);
    }
}

/// Signatures that differ in one byte have different hashes.
pub proof fn lemma_hash_tells_one_byte(a: Seq<u8>, b: Seq<u8>, j: int)
    requires
        a.len() == b.len(),
        0 <= j < a.len(),
        a[j] != b[j],
        forall|i: int| 0 <= i < a.len() && i != j ==> a[i] == b[i],
    ensures
        fnv(a, a.len() as int) != fnv(b, b.len() as int),
{
    lemma_hash_of_one_change(a, b, j, a.len() as int);
}

// ---- streaks

proof fn lemma_trailing(s: Seq<u64>, h: u64, n: int)
    requires
        0 <= n <= s.len(),
    ensures
        0 <= trailing(s, h, n) <= n,
        forall|i: int| n - trailing(s, h, n) <= i < n ==> s[i] == h,
        trailing(s, h, n) < n ==> s[n - trailing(s, h, n) - 1] != h,
    decreases n,
{
    if n > 0 && s[n - 1] == h {
        lemma_trailing(s, h, n - 1);
    }
}

/// A streak is as long as the run of equal hashes at the end, and no longer.
pub proof fn lemma_streak_is_the_last_run(s: Seq<u64>)
    requires
        s.len() > 0,
    ensures
        1 <= streak(s) <= s.len(),
        forall|i: int| s.len() - streak(s) <= i < s.len() ==> s[i] == s.last(),
        streak(s) < s.len() ==> s[s.len() - streak(s) - 1] != s.last(),
{
    lemma_trailing(s, s.last(), s.len() as int);
}

/// A hash is recorded behind the ones before it, of which the nine last stay in their order.
pub proof fn lemma_hash_is_recorded(s: Seq<u64>, h: u64)
    ensures
        push_hash(s, h).last() == h,
        s.len() < 10 ==> push_hash(s, h).drop_last() == s,
        s.len() >= 10 ==> push_hash(s, h).len() == 10 && push_hash(s, h).drop_last() == s.skip(
            s.len() - 9,
        ),
{
    if s.len() < 10 {
        assert(push_hash(s, h).drop_last() =~= s);
    } else {
        assert(push_hash(s, h).drop_last() =~= s.skip(s.len() - 9));
    }
}

proof fn lemma_last_with_role(ms: Seq<JsonV>, role: Seq<char>, n: int)
    requires
        0 <= n <= ms.len(),
    ensures
        match last_with_role(ms, role, n) {
            Some(m) => exists|i: int|
                0 <= i < n && #[trigger] ms[i] == m && m.get("role"@) == Some(JsonV::Str(role))
                    && forall|j: int|
                    i < j < n ==> (#[trigger] ms[j]).get("role"@) != Some(JsonV::Str(role)),
            None => forall|j: int|
                0 <= j < n ==> (#[trigger] ms[j]).get("role"@) != Some(JsonV::Str(role)),
        },
    decreases n,
{
    if n > 0 {
        lemma_last_with_role(ms, role, n - 1);
        if has_role(ms[n - 1], role) {
            assert(ms[n - 1] == ms[n - 1]);
        } else if let Some(m) = last_with_role(ms, role, n - 1) {
            let i = choose|i: int|
                0 <= i < n - 1 && #[trigger] ms[i] == m && m.get("role"@) == Some(JsonV::Str(role))
                    && forall|j: int|
                    i < j < n - 1 ==> (#[trigger] ms[j]).get("role"@) != Some(JsonV::Str(role));
            assert(ms[i] == m);
        }
    }
}

/// The turn that is recorded is the last message of the assistant; where there is none,
/// nothing is recorded.
pub proof fn lemma_last_turn_is_last(s: StateV)
    ensures
        match s.last_turn() {
            Some(m) => exists|i: int|
                0 <= i < s.messages.len() && #[trigger] s.messages[i] == m && m.get("role"@)
                    == Some(JsonV::Str("assistant"@)) && forall|j: int|
                    i < j < s.messages.len() ==> (#[trigger] s.messages[j]).get("role"@) != Some(
                        JsonV::Str("assistant"@),
                    ),
            None => forall|j: int|
                0 <= j < s.messages.len() ==> (#[trigger] s.messages[j]).get("role"@) != Some(
                    JsonV::Str("assistant"@),
                ),
        },
        s.last_turn() is None ==> s.record_turn() == s,
        s.record_turn() == (StateV { hashes: s.record_turn().hashes, ..s }),
{
    lemma_last_with_role(s.messages, "assistant"@, s.messages.len() as int);
}

/// A repetition is reported exactly where the last turn has the hash of the turn before it,
/// and then as often as the hash stands at the end.
pub proof fn lemma_repetition_is_reported(s: StateV)
    requires
        s.last_turn() is Some,
    ensures
        ({
            let m = s.last_turn().unwrap();
            let h = fnv(signature(m), signature(m).len() as int);
            let all = s.hashes.push(h);
            let n = s.turn_streak();
            &&& s.record_turn().hashes.last() == h
            &&& (n == 0 <==> s.hashes.len() == 0 || s.hashes.last() != h)
            &&& n == 0 || 2 <= n <= all.len()
            &&& forall|i: int| all.len() - n <= i < all.len() ==> all[i] == h
            &&& 0 < n < 10 && n < all.len() ==> all[all.len() - n - 1] != h
        }),
{
    let m = s.last_turn().unwrap();
    let h = fnv(signature(m), signature(m).len() as int);
    let all = s.hashes.push(h);
    let kept = push_hash(s.hashes, h);
    lemma_hash_is_recorded(s.hashes, h);
    lemma_streak_is_the_last_run(kept);
    let off = all.len() - kept.len();
    assert forall|i: int| 0 <= i < kept.len() implies kept[i] == #[trigger] all[off + i] by {
        if i < kept.len() - 1 {
            assert(kept.drop_last()[i] == kept[i]);
        }
    }
    let n = streak(kept);
    assert forall|i: int| all.len() - n <= i < all.len() implies all[i] == h by {
        assert(all[off + (i - off)] == kept[i - off]);
    }
    if n < kept.len() {
        assert(all[off + (kept.len() - n - 1)] == kept[kept.len() - n - 1]);
    }
    if s.hashes.len() > 0 {
        assert(all[off + (kept.len() - 2)] == kept[kept.len() - 2]);
        if n == 1 {
            assert(kept[kept.len() - 2] != h);
        } else {
            assert(kept[kept.len() - n] == h);
            assert(kept[kept.len() - 2] == h);
        }
    }
}

/// A turn whose signature differs in one byte from that of the turn recorded before it is no
/// repetition.
pub proof fn lemma_other_turn_is_no_repetition(s: StateV, before: JsonV, j: int)
    requires
        s.last_turn() is Some,
        s.hashes.len() > 0,
        s.hashes.last() == fnv(signature(before), signature(before).len() as int),
        signature(before).len() == signature(s.last_turn().unwrap()).len(),
        0 <= j < signature(before).len(),
        signature(before)[j] != signature(s.last_turn().unwrap())[j],
        forall|i: int|
            0 <= i < signature(before).len() && i != j ==> signature(before)[i] == signature(
                s.last_turn().unwrap(),
            )[i],
    ensures
        s.turn_streak() == 0,
{
    lemma_hash_tells_one_byte(signature(before), signature(s.last_turn().unwrap()), j);
    lemma_repetition_is_reported(s);
}

// ---- the collapse

/// How many messages of the assistant stand in a part of a conversation.
pub open spec fn turns_in(ms: Seq<JsonV>) -> nat
    decreases ms.len(),
{
    if ms.len() == 0 {
        0
    } else {
        turns_in(ms.drop_last()) + (if ms.last().get("role"@) == Some(JsonV::Str("assistant"@)) {
            1nat
        } else {
            0
        })
    }
}

proof fn lemma_turns_are_positions(ms: Seq<JsonV>, n: int)
    requires
        0 <= n <= ms.len(),
    ensures
        turns_in(ms.take(n)) == assistant_positions(ms, n).len(),
    decreases n,
{
    if n > 0 {
        lemma_turns_are_positions(ms, n - 1);
        assert(ms.take(n).drop_last() =~= ms.take(n - 1));
    }
}

proof fn lemma_position_counts(ms: Seq<JsonV>, n: int, i: int)
    requires
        0 <= n <= ms.len(),
        0 <= i < assistant_positions(ms, n).len(),
    ensures
        assistant_positions(ms, n)[i] < n,
        0 <= assistant_positions(ms, n)[i],
        turns_in(ms.take(assistant_positions(ms, n)[i])) == i,
        has_role(ms[assistant_positions(ms, n)[i]], "assistant"@),
    decreases n,
{
    if n > 0 {
        lemma_turns_are_positions(ms, n - 1);
        if i < assistant_positions(ms, n - 1).len() {
            lemma_position_counts(ms, n - 1, i);
        }
    }
}

/// A collapse begins at the first turn of the streak and ends before the last turn of all:
/// the messages that go hold all turns of the streak but that one.
pub proof fn lemma_collapse_takes_the_streak(s: StateV)
    requires
        s.loops(),
    ensures
        ({
            let (from, to) = s.loop_range();
            let n = s.messages.len() as int;
            &&& 0 <= from <= to < n
            &&& s.messages[from].get("role"@) == Some(JsonV::Str("assistant"@))
            &&& s.messages[to].get("role"@) == Some(JsonV::Str("assistant"@))
            &&& turns_in(s.messages.take(to)) == turns_in(s.messages) - 1
            &&& turns_in(s.messages.take(from)) == turns_in(s.messages) - streak(s.hashes)
            &&& s.collapse().messages.len() == n - (to - from) + 1
            &&& s.collapse() == (StateV {
                messages: s.collapse().messages,
                hashes: Seq::empty(),
                ..s
            })
        }),
{
    let n = s.messages.len() as int;
    let p = assistant_positions(s.messages, n);
    lemma_turns_are_positions(s.messages, n);
    assert(s.messages.take(n) =~= s.messages);
    lemma_position_counts(s.messages, n, p.len() - 1);
    lemma_position_counts(s.messages, n, p.len() - streak(s.hashes));
    lemma_streak_is_the_last_run(s.hashes);
    crate::state::lemma_positions(s.messages, n);
}

/// Only a streak of at least three turns is collapsed.
pub proof fn lemma_short_streaks_stay(s: StateV)
    requires
        s.hashes.len() < 3 || s.hashes[s.hashes.len() - 1] != s.hashes[s.hashes.len() - 2]
            || s.hashes[s.hashes.len() - 1] != s.hashes[s.hashes.len() - 3],
    ensures
        s.collapse() == s,
        s.collapse_count() == 0,
{
    if s.hashes.len() >= 3 {
        lemma_streak_is_the_last_run(s.hashes);
    }
}

/// The note that takes the place of the streak says how many turns were taken out, and quotes the
/// first 300 characters of what the first of them thought.
pub proof fn lemma_collapse_leaves_a_note(s: StateV)
    requires
        s.loops(),
    ensures
        ({
            let (from, _) = s.loop_range();
            let thought = match s.messages[from].get("reasoning"@) {
                Some(JsonV::Str(t)) => t,
                _ => Seq::empty(),
            };
            let note = s.collapse().messages[from];
            &&& note.get("role"@) == Some(JsonV::Str("system"@))
            &&& note.get("content"@) == Some(
                JsonV::Str(
                    "[context note: "@ + crate::text::dec(streak(s.hashes) - 1)
                        + " duplicate turn-cycles were compacted from history because they repeated the same approach without progress. Do not re-attempt the same approach. Compacted reasoning snippet for reference: "@
                        + crate::state::quoted(crate::text::take_chars(thought, 300)) + "]"@,
                ),
            )
        }),
{
    let (from, to) = s.loop_range();
    let n = s.messages.len() as int;
    crate::state::lemma_positions(s.messages, n);
    lemma_collapse_takes_the_streak(s);
    let note = s.collapse().messages[from];
    reveal_strlit("role");
    reveal_strlit("content");
    let o = note->Object_0;
    assert(o[0].0.len() == 4 && o[1].0.len() == 7);
    crate::json::lemma_get_entry(o, 0);
    crate::json::lemma_get_entry(o, 1);
}

} // verus!
