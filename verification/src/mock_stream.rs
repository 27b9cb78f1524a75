//! Deterministic synthetic event stream for reproducible runs.
//!
//! Events are drawn from a seeded `StdRng`: about 80% bot edits, spread over
//! ten Wikipedia language domains.
use rand::rngs::StdRng;
use rand::{Rng, SeedableRng};
use vstd::prelude::*;
use vstd::string::*;
use vstd::utf8::{
    encode_utf8, encode_utf8_valid_utf8, is_ascii_chars, is_ascii_chars_encode_utf8,
    is_char_boundary, is_char_boundary_iff_not_is_continuation_byte,
    is_char_boundary_start_end_of_seq,
};

verus! {

#[verifier::external_type_specification]
#[verifier::external_body]
pub struct ExStdRng(StdRng);

/// One request served by a seeded generator, with its arguments.
#[derive(Debug, Clone, Copy, PartialEq, Eq, Structural)]
pub enum RngRequest {
    /// `gen_ratio(numerator, denominator)`.
    Ratio(u32, u32),
    /// `gen_range(lo..hi)` over `u64`.
    Range(u64, u64),
}

/// What `Rng::gen_ratio(numerator, denominator)` returns on a `StdRng` made by
/// `StdRng::seed_from_u64(seed)` that has served the requests of `history`,
/// in order.  `StdRng` is a deterministic generator, so these values alone
/// fix the result.
pub uninterp spec fn ratio_draw(seed: u64, history: Seq<RngRequest>, numerator: u32, denominator: u32) -> bool;

/// What `Rng::gen_range(lo..hi)` over `u64` returns on a `StdRng` made by
/// `StdRng::seed_from_u64(seed)` that has served the requests of `history`,
/// in order.
pub uninterp spec fn range_draw(seed: u64, history: Seq<RngRequest>, lo: u64, hi: u64) -> u64;

/// A `StdRng` together with its seed and the requests it has served, which
/// together determine every later draw.
pub struct SeededRng {
    rng: StdRng,
    seed: Ghost<u64>,
    history: Ghost<Seq<RngRequest>>,
}

impl View for SeededRng {
    type V = (u64, Seq<RngRequest>);

    closed spec fn view(&self) -> (u64, Seq<RngRequest>) {
        (self.seed@, self.history@)
    }
}

/// `StdRng::seed_from_u64`: a generator seeded with `seed` that has served no
/// request yet.
#[verifier::external_body]
fn seeded_rng(seed: u64) -> (r: SeededRng)
    ensures
        r@.0 == seed,
        r@.1 == Seq::<RngRequest>::empty(),
{
    SeededRng { rng: StdRng::seed_from_u64(seed), seed: Ghost(seed), history: Ghost(Seq::empty()) }
}

/// `Rng::gen_range(lo..hi)` over `u64`: a value drawn from `lo..hi`, the one
/// that the seed and the requests served so far determine; the request is
/// added to the history.  It panics on an empty range.
#[verifier::external_body]
fn random_in(rng: &mut SeededRng, lo: u64, hi: u64) -> (r: u64)
    requires
        lo < hi,
    ensures
        lo <= r < hi,
        r == range_draw(old(rng)@.0, old(rng)@.1, lo, hi),
        final(rng)@.0 == old(rng)@.0,
        final(rng)@.1 == old(rng)@.1.push(RngRequest::Range(lo, hi)),
{
    rng.rng.gen_range(lo..hi)
}

/// `Rng::gen_ratio(numerator, denominator)`: `true` with probability
/// `numerator / denominator`, the outcome that the seed and the requests
/// served so far determine; certainly `false` for a zero numerator and
/// certainly `true` when numerator equals denominator.  The request is added
/// to the history.  It panics on a zero denominator or a numerator above the
/// denominator.
#[verifier::external_body]
fn random_ratio(rng: &mut SeededRng, numerator: u32, denominator: u32) -> (r: bool)
    requires
        0 < denominator,
        numerator <= denominator,
    ensures
        numerator == 0 ==> !r,
        numerator == denominator ==> r,
        r == ratio_draw(old(rng)@.0, old(rng)@.1, numerator, denominator),
        final(rng)@.0 == old(rng)@.0,
        final(rng)@.1 == old(rng)@.1.push(RngRequest::Ratio(numerator, denominator)),
{
    rng.rng.gen_ratio(numerator, denominator)
}

impl SeededRng {
    /// A generator seeded with `seed`, as `StdRng::seed_from_u64` makes it.
    pub fn seed_from_u64(seed: u64) -> (r: Self)
        ensures
            r@.0 == seed,
            r@.1 == Seq::<RngRequest>::empty(),
    {
        seeded_rng(seed)
    }
}

/// Number of wiki domains the generator draws from.
pub const DOMAIN_COUNT: u64 = 10;

/// The `i`-th wiki domain.
pub open spec fn domain_text(i: int) -> Seq<char> {
    if i == 0 {
        "en.wikipedia.org"@
    } else if i == 1 {
        "de.wikipedia.org"@
    } else if i == 2 {
        "fr.wikipedia.org"@
    } else if i == 3 {
        "es.wikipedia.org"@
    } else if i == 4 {
        "ru.wikipedia.org"@
    } else if i == 5 {
        "ja.wikipedia.org"@
    } else if i == 6 {
        "zh.wikipedia.org"@
    } else if i == 7 {
        "pt.wikipedia.org"@
    } else if i == 8 {
        "it.wikipedia.org"@
    } else {
        "nl.wikipedia.org"@
    }
}

/// The `i`-th human editor name.
pub open spec fn human_user_text(i: int) -> Seq<char> {
    if i == 0 {
        "Alice"@
    } else if i == 1 {
        "Bob"@
    } else if i == 2 {
        "Carol"@
    } else {
        "Dave"@
    }
}

/// The `i`-th bot account name.
pub open spec fn bot_user_text(i: int) -> Seq<char> {
    if i == 0 {
        "ClueBot"@
    } else if i == 1 {
        "AntiVandal"@
    } else {
        "RefBot"@
    }
}

/// The `u`-th editor of the given kind.
pub open spec fn user_text(bot: bool, u: int) -> Seq<char> {
    if bot {
        bot_user_text(u)
    } else {
        human_user_text(u)
    }
}

fn domain_name(i: u64) -> (r: &'static str)
    requires
        i < DOMAIN_COUNT,
    ensures
        r@ == domain_text(i as int),
        is_ascii_chars(r@),
        r@.len() >= 2,
{
    let r = if i == 0 {
        "en.wikipedia.org"
    } else if i == 1 {
        "de.wikipedia.org"
    } else if i == 2 {
        "fr.wikipedia.org"
    } else if i == 3 {
        "es.wikipedia.org"
    } else if i == 4 {
        "ru.wikipedia.org"
    } else if i == 5 {
        "ja.wikipedia.org"
    } else if i == 6 {
        "zh.wikipedia.org"
    } else if i == 7 {
        "pt.wikipedia.org"
    } else if i == 8 {
        "it.wikipedia.org"
    } else {
        "nl.wikipedia.org"
    };
    proof {
        reveal_strlit("en.wikipedia.org");
        reveal_strlit("de.wikipedia.org");
        reveal_strlit("fr.wikipedia.org");
        reveal_strlit("es.wikipedia.org");
        reveal_strlit("ru.wikipedia.org");
        reveal_strlit("ja.wikipedia.org");
        reveal_strlit("zh.wikipedia.org");
        reveal_strlit("pt.wikipedia.org");
        reveal_strlit("it.wikipedia.org");
        reveal_strlit("nl.wikipedia.org");
    }
    r
}

fn human_user(i: u64) -> (r: &'static str)
    requires
        i < 4,
    ensures
        r@ == human_user_text(i as int),
{
    if i == 0 {
        "Alice"
    } else if i == 1 {
        "Bob"
    } else if i == 2 {
        "Carol"
    } else {
        "Dave"
    }
}

fn bot_user(i: u64) -> (r: &'static str)
    requires
        i < 3,
    ensures
        r@ == bot_user_text(i as int),
{
    if i == 0 {
        "ClueBot"
    } else if i == 1 {
        "AntiVandal"
    } else {
        "RefBot"
    }
}

/// A string whose first two bytes form whole characters has a character
/// boundary at byte 2; ASCII strings of length two or more do.
proof fn lemma_ascii_boundary_at_2(chars: Seq<char>)
    requires
        is_ascii_chars(chars),
        chars.len() >= 2,
    ensures
        encode_utf8(chars).len() >= 2,
        is_char_boundary(encode_utf8(chars), 2),
        encode_utf8(chars).subrange(0, 2) == encode_utf8(chars.subrange(0, 2)),
{
    let bytes = encode_utf8(chars);
    is_ascii_chars_encode_utf8(chars);
    encode_utf8_valid_utf8(chars);
    let head = chars.subrange(0, 2);
    assert(is_ascii_chars(head));
    is_ascii_chars_encode_utf8(head);
    if bytes.len() == 2 {
        is_char_boundary_start_end_of_seq(bytes);
    } else {
        is_char_boundary_iff_not_is_continuation_byte(bytes, 2);
        assert(bytes[2] == chars[2] as u8);
    }
    assert(encode_utf8(head) =~= bytes.subrange(0, 2));
}

/// The short wiki database name of a domain: its first two bytes followed by
/// `wiki` (`"en.wikipedia.org"` gives `"enwiki"`).  Byte 2 must be a character
/// boundary.
pub fn wiki_from_domain(domain: &str) -> (r: String)
    requires
        domain.spec_bytes().len() >= 2,
        is_char_boundary(domain.spec_bytes(), 2),
    ensures
        exists|head: Seq<char>| #![trigger encode_utf8(head)]
            encode_utf8(head) == domain.spec_bytes().subrange(0, 2) && r@ == head + "wiki"@,
{
    let (head, _rest) = domain.split_at(2);
    let mut s = head.to_owned();
    s.append("wiki");
    assert(encode_utf8(head@) == domain.spec_bytes().subrange(0, 2));
    s
}

/// The decimal digit `d` as text.
pub open spec fn digit_text(d: u64) -> Seq<char> {
    if d == 0 {
        "0"@
    } else if d == 1 {
        "1"@
    } else if d == 2 {
        "2"@
    } else if d == 3 {
        "3"@
    } else if d == 4 {
        "4"@
    } else if d == 5 {
        "5"@
    } else if d == 6 {
        "6"@
    } else if d == 7 {
        "7"@
    } else if d == 8 {
        "8"@
    } else {
        "9"@
    }
}

/// `n` in decimal, without leading zeros.
pub open spec fn decimal(n: u64) -> Seq<char>
    decreases n,
{
    if n < 10 {
        digit_text(n)
    } else {
        decimal(n / 10) + digit_text(n % 10)
    }
}

/// `n` in decimal, with a leading `-` when negative.
pub open spec fn signed_decimal(n: i64) -> Seq<char> {
    if n < 0 {
        "-"@ + decimal((0 - n) as u64)
    } else {
        decimal(n as u64)
    }
}

fn digit_str(d: u64) -> (r: &'static str)
    requires
        d < 10,
    ensures
        r@ == digit_text(d),
{
    if d == 0 {
        "0"
    } else if d == 1 {
        "1"
    } else if d == 2 {
        "2"
    } else if d == 3 {
        "3"
    } else if d == 4 {
        "4"
    } else if d == 5 {
        "5"
    } else if d == 6 {
        "6"
    } else if d == 7 {
        "7"
    } else if d == 8 {
        "8"
    } else {
        "9"
    }
}

/// Appends `n` in decimal.
fn push_decimal(s: &mut String, n: u64)
    ensures
        final(s)@ == old(s)@ + decimal(n),
    decreases n,
{
    if n >= 10 {
        push_decimal(s, n / 10);
    }
    s.append(digit_str(n % 10));
    proof {
        if n < 10 {
            assert(n % 10 == n);
        }
    }
}

/// Appends `n` in decimal, with a leading `-` when negative.
fn push_signed_decimal(s: &mut String, n: i64)
    ensures
        final(s)@ == old(s)@ + signed_decimal(n),
{
    if n < 0 {
        s.append("-");
        let magnitude: u64 = (0i128 - n as i128) as u64;
        push_decimal(s, magnitude);
    } else {
        push_decimal(s, n as u64);
    }
}

/// A decimal digit character.
pub open spec fn is_digit(c: char) -> bool {
    '0' <= c && c <= '9'
}

/// The number a string of decimal digits reads as.
pub open spec fn digits_value(s: Seq<char>) -> int
    decreases s.len(),
{
    if s.len() == 0 {
        0
    } else {
        digits_value(s.drop_last()) * 10 + (s.last() as int - '0' as int)
    }
}

proof fn lemma_digit_text(d: u64)
    requires
        d < 10,
    ensures
        digit_text(d).len() == 1,
        is_digit(digit_text(d)[0]),
        digit_text(d)[0] as int - '0' as int == d,
{
    reveal_strlit("0");
    reveal_strlit("1");
    reveal_strlit("2");
    reveal_strlit("3");
    reveal_strlit("4");
    reveal_strlit("5");
    reveal_strlit("6");
    reveal_strlit("7");
    reveal_strlit("8");
    reveal_strlit("9");
}

/// `decimal(n)` is the usual rendering of `n`: a non-empty string of decimal
/// digits, without a leading zero unless `n` is 0, that reads back as `n`.
pub proof fn law_decimal_reads_back(n: u64)
    ensures
        decimal(n).len() >= 1,
        forall|i: int| 0 <= i < decimal(n).len() ==> is_digit(#[trigger] decimal(n)[i]),
        digits_value(decimal(n)) == n,
        decimal(n)[0] == '0' ==> n == 0,
    decreases n,
{
    if n < 10 {
        lemma_digit_text(n);
        let t = digit_text(n);
        assert(t.drop_last() =~= Seq::<char>::empty());
        assert(digits_value(t.drop_last()) == 0);
        assert(t.last() == t[0]);
        assert(digits_value(t) == n);
    } else {
        law_decimal_reads_back(n / 10);
        lemma_digit_text(n % 10);
        let a = decimal(n / 10);
        let b = digit_text(n % 10);
        let t = a + b;
        assert(t.drop_last() =~= a);
        assert(t.last() == b[0]);
        assert(t[0] == a[0]);
        assert forall|i: int| 0 <= i < t.len() implies is_digit(#[trigger] t[i]) by {
            if i < a.len() {
                assert(t[i] == a[i]);
            }
        }
        assert(n / 10 * 10 + n % 10 == n);
        assert(digits_value(t) == digits_value(a) * 10 + (b[0] as int - '0' as int));
        assert(decimal(n) == t);
    }
}

/// `signed_decimal(n)` is the usual rendering of `n`: its decimal digits,
/// preceded by `-` when `n` is negative, reading back as `n`.
pub proof fn law_signed_decimal_reads_back(n: i64)
    ensures
        n >= 0 ==> {
            &&& forall|i: int| 0 <= i < signed_decimal(n).len() ==> is_digit(#[trigger] signed_decimal(n)[i])
            &&& digits_value(signed_decimal(n)) == n
        },
        n < 0 ==> {
            &&& signed_decimal(n)[0] == '-'
            &&& forall|i: int| 1 <= i < signed_decimal(n).len() ==> is_digit(#[trigger] signed_decimal(n)[i])
            &&& digits_value(signed_decimal(n).skip(1)) == -n
        },
{
    if n >= 0 {
        law_decimal_reads_back(n as u64);
    } else {
        let m = (0 - n) as u64;
        law_decimal_reads_back(m);
        reveal_strlit("-");
        let t = "-"@ + decimal(m);
        assert(t.skip(1) =~= decimal(m));
        assert forall|i: int| 1 <= i < t.len() implies is_digit(#[trigger] t[i]) by {
            assert(t[i] == decimal(m)[i - 1]);
        }
    }
}

/// `true` or `false` as JSON text.
pub open spec fn bool_text(b: bool) -> Seq<char> {
    if b {
        "true"@
    } else {
        "false"@
    }
}

/// The JSON text of one synthetic event.
pub open spec fn event_json(user: Seq<char>, bot: bool, server_name: Seq<char>, wiki: Seq<char>, seq: u64, timestamp: i64) -> Seq<char> {
    "{\"user\":\""@ + user + "\",\"bot\":"@ + bool_text(bot) + ",\"server_name\":\""@ + server_name
        + "\",\"wiki\":\""@ + wiki + "\",\"title\":\"Page_"@ + decimal(seq) + "\",\"timestamp\":"@
        + signed_decimal(timestamp) + ",\"type\":\"edit\"}"@
}

/// Whether `json` is a synthetic event for sequence number `seq` stamped
/// `timestamp`: some bot flag, a domain from the list with its wiki name, and
/// an editor from the list matching the flag.
pub open spec fn is_mock_event(json: Seq<char>, seq: u64, timestamp: i64) -> bool {
    exists|bot: bool, d: int, u: int|
        0 <= d < DOMAIN_COUNT && 0 <= u && (if bot { u < 3 } else { u < 4 }) && #[trigger] event_json(
            user_text(bot, u),
            bot,
            domain_text(d),
            domain_text(d).subrange(0, 2) + "wiki"@,
            seq,
            timestamp,
        ) == json
}

/// The bot-flag request of an event: true with probability 4/5.
pub open spec fn bot_request() -> RngRequest {
    RngRequest::Ratio(4, 5)
}

/// The domain request of an event: uniform over the ten wikis.
pub open spec fn domain_request() -> RngRequest {
    RngRequest::Range(0, DOMAIN_COUNT)
}

/// The editor request of an event: uniform over the accounts of its kind.
pub open spec fn user_request(bot: bool) -> RngRequest {
    RngRequest::Range(0, if bot { 3 } else { 4 })
}

/// Whether the event drawn by a generator in state (`seed`, `history`) is a
/// bot edit.
pub open spec fn drawn_bot(seed: u64, history: Seq<RngRequest>) -> bool {
    ratio_draw(seed, history, 4, 5)
}

/// The domain index of the event drawn in state (`seed`, `history`).
pub open spec fn drawn_domain(seed: u64, history: Seq<RngRequest>) -> u64 {
    range_draw(seed, history.push(bot_request()), 0, DOMAIN_COUNT)
}

/// The editor index of the event drawn in state (`seed`, `history`).
pub open spec fn drawn_user(seed: u64, history: Seq<RngRequest>) -> u64 {
    range_draw(
        seed,
        history.push(bot_request()).push(domain_request()),
        0,
        if drawn_bot(seed, history) { 3 } else { 4 },
    )
}

/// The requests served after drawing one event in state (`seed`, `history`).
pub open spec fn history_after_event(seed: u64, history: Seq<RngRequest>) -> Seq<RngRequest> {
    history.push(bot_request()).push(domain_request()).push(user_request(drawn_bot(seed, history)))
}

/// The event a generator in state (`seed`, `history`) produces for sequence
/// number `seq` stamped `timestamp`.
pub open spec fn drawn_event(seed: u64, history: Seq<RngRequest>, seq: u64, timestamp: i64) -> Seq<char> {
    let bot = drawn_bot(seed, history);
    let d = drawn_domain(seed, history) as int;
    event_json(
        user_text(bot, drawn_user(seed, history) as int),
        bot,
        domain_text(d),
        domain_text(d).subrange(0, 2) + "wiki"@,
        seq,
        timestamp,
    )
}

/// Generates one synthetic Wikipedia event as JSON, with fields `user`, `bot`,
/// `server_name`, `wiki`, `title` (`Page_<seq>`), `timestamp` and `type`.
///
/// Every field but the timestamp is drawn from `rng`, in this order: the bot
/// flag with probability 4/5, the domain uniformly over ten wikis, the editor
/// uniformly over the accounts of its kind.  The event is the one that the
/// generator's seed and past requests determine, so two generators in the
/// same state produce the same event.
pub fn generate_event(seq: u64, rng: &mut SeededRng, timestamp: i64) -> (r: String)
    ensures
        r@ == drawn_event(old(rng)@.0, old(rng)@.1, seq, timestamp),
        final(rng)@.0 == old(rng)@.0,
        final(rng)@.1 == history_after_event(old(rng)@.0, old(rng)@.1),
        is_mock_event(r@, seq, timestamp),
{
    let is_bot = random_ratio(rng, 4, 5);
    let domain_idx = random_in(rng, 0, DOMAIN_COUNT);
    let server_name = domain_name(domain_idx);
    proof {
        lemma_ascii_boundary_at_2(server_name@);
    }
    let wiki = wiki_from_domain(server_name);
    proof {
        let head = choose|head: Seq<char>| #![trigger encode_utf8(head)]
            encode_utf8(head) == server_name.spec_bytes().subrange(0, 2) && wiki@ == head + "wiki"@;
        crate::ranking::lemma_encode_injective(head, server_name@.subrange(0, 2));
    }
    let user_idx = if is_bot { random_in(rng, 0, 3) } else { random_in(rng, 0, 4) };
    let user = if is_bot { bot_user(user_idx) } else { human_user(user_idx) };

    let mut s = String::new();
    s.append("{\"user\":\"");
    s.append(user);
    s.append("\",\"bot\":");
    s.append(if is_bot { "true" } else { "false" });
    s.append(",\"server_name\":\"");
    s.append(server_name);
    s.append("\",\"wiki\":\"");
    s.append(wiki.as_str());
    s.append("\",\"title\":\"Page_");
    push_decimal(&mut s, seq);
    s.append("\",\"timestamp\":");
    push_signed_decimal(&mut s, timestamp);
    s.append(",\"type\":\"edit\"}");
    proof {
        let ev = event_json(user@, is_bot, server_name@, wiki@, seq, timestamp);
        assert(s@ =~= ev);
        assert(event_json(
            user_text(is_bot, user_idx as int),
            is_bot,
            domain_text(domain_idx as int),
            domain_text(domain_idx as int).subrange(0, 2) + "wiki"@,
            seq,
            timestamp,
        ) == s@);
    }
    s
}

/// Delay between synthetic events for a target rate, in microseconds.
pub fn mock_interval_us(events_per_second: u64) -> (r: u64)
    ensures
        r == 1_000_000u64 / (if events_per_second > 0 { events_per_second } else { 1u64 }),
{
    let eps = if events_per_second > 0 { events_per_second } else { 1 };
    1_000_000 / eps
}

/// The requests a generator seeded with `seed` has served after producing
/// `n` events.
pub open spec fn stream_history(seed: u64, n: nat) -> Seq<RngRequest>
    decreases n,
{
    if n == 0 {
        Seq::empty()
    } else {
        history_after_event(seed, stream_history(seed, (n - 1) as nat))
    }
}

/// The `n`-th event (counting from 0) of a stream seeded with `seed`, stamped
/// `timestamp`.
pub open spec fn stream_event(seed: u64, n: nat, timestamp: i64) -> Seq<char> {
    drawn_event(seed, stream_history(seed, n), n as u64, timestamp)
}

/// The seed of every `MockStream`.
pub const MOCK_SEED: u64 = 42;

/// A seeded, reproducible event generator: a `StdRng` seeded with 42 and a
/// sequence number that counts the events produced.  Its `n`-th event is
/// `stream_event(42, n, timestamp)`, so two streams produce the same
/// sequence.
pub struct MockStream {
    rng: SeededRng,
    seq: u64,
}

impl MockStream {
    /// The sequence number of the next event.
    pub closed spec fn next_seq(&self) -> u64 {
        self.seq
    }

    /// The state of the stream's generator: its seed and the requests it has
    /// served.
    pub closed spec fn generator(&self) -> (u64, Seq<RngRequest>) {
        self.rng@
    }

    /// The seed of the stream's generator.
    pub closed spec fn seed(&self) -> u64 {
        self.rng@.0
    }

    /// The generator has served exactly the requests of the events produced
    /// so far.
    pub closed spec fn wf(&self) -> bool {
        self.rng@.1 == stream_history(self.rng@.0, self.seq as nat)
    }

    /// A generator seeded with 42, at sequence number 0.
    pub fn new() -> (m: Self)
        ensures
            m.wf(),
            m.seed() == MOCK_SEED,
            m.next_seq() == 0,
    {
        MockStream { rng: seeded_rng(MOCK_SEED), seq: 0 }
    }

    /// The next synthetic event, stamped `timestamp` (Unix seconds): event
    /// number `next_seq()` of the stream's seed.
    pub fn next_event(&mut self, timestamp: i64) -> (r: String)
        requires
            old(self).wf(),
            old(self).next_seq() < u64::MAX,
        ensures
            final(self).wf(),
            final(self).seed() == old(self).seed(),
            final(self).next_seq() == old(self).next_seq() + 1,
            r@ == stream_event(old(self).seed(), old(self).next_seq() as nat, timestamp),
            is_mock_event(r@, old(self).next_seq(), timestamp),
    {
        let event = generate_event(self.seq, &mut self.rng, timestamp);
        self.seq = self.seq + 1;
        event
    }
}

/// Streams are reproducible: two streams with the same seed that have
/// produced the same number of events have generators in the same state,
/// so every later draw, and every later event, is the same.
pub proof fn law_streams_reproducible(a: MockStream, b: MockStream)
    requires
        a.wf(),
        b.wf(),
        a.seed() == b.seed(),
        a.next_seq() == b.next_seq(),
    ensures
        a.generator() == b.generator(),
{
}

} // verus!
