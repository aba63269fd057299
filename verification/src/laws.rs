//! Properties of the library that span several calls or all inputs.

use vstd::prelude::*;

use crate::capture::CapturedData;
use crate::config::{default_path, ExporterBackend, PluginConfig};
use crate::exporters::stream_labels_map;
use crate::exporters::{kv_object_text, log_attribute_texts, loki_message, optional_kv, otel_kv_text};
use crate::filter::{absorb, buffer_full, export_headers};
use crate::json::{hex_digit_lower, json_escape, json_escape_char, json_string_literal};
use crate::labels::pairs_map;
use crate::text::{
    all_digits, decimal, digit_char, digits_value, is_digit, parse_u32_spec, unsigned_digits,
};

verus! {

/// The buffer after the chunks arrive one after another.
pub open spec fn absorb_all(buffer: Seq<u8>, max: usize, chunks: Seq<Seq<u8>>) -> Seq<u8>
    decreases chunks.len(),
{
    if chunks.len() == 0 {
        buffer
    } else {
        absorb(absorb_all(buffer, max, chunks.drop_last()), max, chunks.last())
    }
}

/// The part of a body that is kept: all of it when there is no limit or it
/// fits, else its first `max` bytes.
pub open spec fn kept_body(body: Seq<u8>, max: usize) -> Seq<u8> {
    if max == 0 || body.len() <= max {
        body
    } else {
        body.subrange(0, max as int)
    }
}

/// A body buffer never grows past the limit: if it holds at most `max`
/// bytes, it still does after any chunk arrives.
pub proof fn body_stays_within_limit(buffer: Seq<u8>, max: usize, chunk: Seq<u8>)
    requires
        max > 0,
        buffer.len() <= max,
    ensures
        absorb(buffer, max, chunk).len() <= max,
{
}

/// A chunk only ever adds to the buffer, and only what the chunk starts
/// with: the old buffer is a prefix of the new one, and the rest is a prefix
/// of the chunk.
pub proof fn body_grows_by_chunk_prefix(buffer: Seq<u8>, max: usize, chunk: Seq<u8>)
    ensures
        buffer.is_prefix_of(absorb(buffer, max, chunk)),
        absorb(buffer, max, chunk).subrange(
            buffer.len() as int,
            absorb(buffer, max, chunk).len() as int,
        ).is_prefix_of(chunk),
{
    let r = absorb(buffer, max, chunk);
    assert(r.subrange(0, buffer.len() as int) =~= buffer);
    let rest = r.subrange(buffer.len() as int, r.len() as int);
    assert(rest =~= chunk.subrange(0, rest.len() as int));
}

/// Two chunks in a row are kept as their concatenation would be in one go.
pub proof fn body_chunks_compose(buffer: Seq<u8>, max: usize, first: Seq<u8>, second: Seq<u8>)
    ensures
        absorb(absorb(buffer, max, first), max, second) == absorb(buffer, max, first + second),
{
    let a = absorb(absorb(buffer, max, first), max, second);
    let b = absorb(buffer, max, first + second);
    if max == 0 {
        assert(a =~= b);
    } else if buffer.len() >= max {
    } else {
        let room = max - buffer.len();
        if first.len() >= room {
            assert((first + second).subrange(0, room) =~= first.subrange(0, room));
            assert(a =~= b);
        } else {
            let left = room - first.len();
            if second.len() <= left {
                assert(a =~= b);
            } else {
                assert((first + second).subrange(0, room) =~= first + second.subrange(0, left));
                assert(a =~= b);
            }
        }
    }
}

proof fn lemma_absorb_all(buffer: Seq<u8>, max: usize, chunks: Seq<Seq<u8>>)
    ensures
        absorb_all(buffer, max, chunks) == absorb(buffer, max, chunks.flatten_alt()),
    decreases chunks.len(),
{
    if chunks.len() == 0 {
        assert(absorb(buffer, max, Seq::empty()) =~= buffer);
    } else {
        lemma_absorb_all(buffer, max, chunks.drop_last());
        body_chunks_compose(buffer, max, chunks.drop_last().flatten_alt(), chunks.last());
    }
}

/// However a body is cut into chunks, the captured body is the same: the
/// whole body when there is no limit or it fits, else its first `max` bytes.
pub proof fn captured_body_is_body_prefix(max: usize, chunks: Seq<Seq<u8>>)
    ensures
        absorb_all(Seq::empty(), max, chunks) == kept_body(chunks.flatten(), max),
{
    lemma_absorb_all(Seq::empty(), max, chunks);
    chunks.lemma_flatten_and_flatten_alt_are_equivalent();
    let body = chunks.flatten();
    assert(Seq::<u8>::empty() + body =~= body);
    if max > 0 && body.len() > max {
        assert(Seq::<u8>::empty() + body.subrange(0, max as int) =~= body.subrange(0, max as int));
    }
}

proof fn lemma_decimal_digits(n: nat)
    ensures
        all_digits(decimal(n)),
        digits_value(decimal(n)) == n,
        decimal(n).len() > 0,
        decimal(n)[0] != '+',
    decreases n,
{
    if n < 10 {
        assert(decimal(n) =~= seq![digit_char(n)]);
        assert(seq![digit_char(n)].drop_last() =~= Seq::<char>::empty());
        assert((digit_char(n) as u32) == n + 48);
        assert(digits_value(decimal(n)) == digits_value(Seq::<char>::empty()) * 10 + ((decimal(n).last() as u32) - 48) as nat);
    } else {
        lemma_decimal_digits(n / 10);
        let d = decimal(n);
        assert(d.drop_last() =~= decimal(n / 10));
        assert(d[0] == decimal(n / 10)[0]);
        assert(d.last() == digit_char(n % 10));
        assert((digit_char(n % 10) as u32) == n % 10 + 48);
        assert(n == (n / 10) * 10 + n % 10);
        assert(digits_value(d) == digits_value(d.drop_last()) * 10 + ((d.last() as u32) - 48) as nat);
        assert forall|i: int| 0 <= i < d.len() implies #[trigger] is_digit(d[i]) by {
            if i < d.len() - 1 {
                assert(d[i] == decimal(n / 10)[i]);
            }
        }
    }
}

/// A status code written in decimal reads back as the same number.
pub proof fn status_code_round_trip(n: u32)
    ensures
        parse_u32_spec(decimal(n as nat)) == Some(n),
{
    lemma_decimal_digits(n as nat);
    assert(unsigned_digits(decimal(n as nat)) == decimal(n as nat));
}

/// A configuration always has a push path once its default is applied: the
/// configured one, or the backend's default, which is never empty.
pub proof fn push_path_is_never_empty(config: PluginConfig)
    ensures
        config.effective_path().len() > 0,
{
    reveal_strlit("/loki/api/v1/push");
    reveal_strlit("/v1/logs");
    assert(default_path(ExporterBackend::Loki).len() > 0);
    assert(default_path(ExporterBackend::Otlp).len() > 0);
}

/// The Loki stream labels hold every configured label with its value, the
/// `service` and `source` labels unless a configured label of that name
/// replaces them, and nothing else.
pub proof fn stream_labels_hold_configured_labels(config: PluginConfig)
    requires
        config.labels_distinct(),
    ensures
        forall|i: int|
            0 <= i < config.labels@.len() ==> #[trigger] stream_labels_map(config)[config.labels@[i].0@]
                == config.labels@[i].1@,
        (forall|i: int| 0 <= i < config.labels@.len() ==> config.labels@[i].0@ != "service"@)
            ==> stream_labels_map(config)["service"@] == config.service_name@,
        (forall|i: int| 0 <= i < config.labels@.len() ==> config.labels@[i].0@ != "source"@)
            ==> stream_labels_map(config)["source"@] == "wasm-wiretap"@,
        forall|k: Seq<char>|
            #[trigger] stream_labels_map(config).contains_key(k) <==> (k == "service"@ || k
                == "source"@ || exists|i: int|
                0 <= i < config.labels@.len() && config.labels@[i].0@ == k),
{
    let labels = config.labels.deep_view();
    let base = seq![("service"@, config.service_name@), ("source"@, "wasm-wiretap"@)];
    let all = base + labels;
    assert forall|i: int| 0 <= i < labels.len() implies labels[i] == (
        config.labels@[i].0@,
        config.labels@[i].1@,
    ) by {}
    assert forall|i: int| 0 <= i < config.labels@.len() implies #[trigger] stream_labels_map(
        config,
    )[config.labels@[i].0@] == config.labels@[i].1@ by {
        lemma_last_pair_wins(all, i + 2);
    }
    assert(all[0] == base[0] && all[1] == base[1]);
    lemma_first_pairs(all, config.service_name@, config.labels@.len());
    assert forall|k: Seq<char>| #[trigger]
        stream_labels_map(config).contains_key(k) <==> (k == "service"@ || k == "source"@
            || exists|i: int| 0 <= i < config.labels@.len() && config.labels@[i].0@ == k) by {
        lemma_pairs_map_domain(all, k);
        if exists|i: int| 0 <= i < config.labels@.len() && config.labels@[i].0@ == k {
            let i = choose|i: int| 0 <= i < config.labels@.len() && config.labels@[i].0@ == k;
            assert(all[i + 2].0 == k);
        }
        if exists|j: int| 0 <= j < all.len() && all[j].0 == k {
            let j = choose|j: int| 0 <= j < all.len() && all[j].0 == k;
            if j >= 2 {
                assert(config.labels@[j - 2].0@ == k);
            }
        }
    }
}

proof fn lemma_pairs_map_domain(s: Seq<(Seq<char>, Seq<char>)>, k: Seq<char>)
    ensures
        pairs_map(s).contains_key(k) <==> exists|j: int| 0 <= j < s.len() && s[j].0 == k,
    decreases s.len(),
{
    if s.len() > 0 {
        lemma_pairs_map_domain(s.drop_last(), k);
        if pairs_map(s).contains_key(k) && s.last().0 != k {
            let j = choose|j: int| 0 <= j < s.drop_last().len() && s.drop_last()[j].0 == k;
            assert(s[j].0 == k);
        }
        if exists|j: int| 0 <= j < s.len() && s[j].0 == k {
            let j = choose|j: int| 0 <= j < s.len() && s[j].0 == k;
            if j < s.len() - 1 {
                assert(s.drop_last()[j].0 == k);
            }
        }
    }
}

/// The value of a name in the pairs' map is that of its last pair.
proof fn lemma_last_pair_wins(s: Seq<(Seq<char>, Seq<char>)>, i: int)
    requires
        0 <= i < s.len(),
        forall|j: int| i < j < s.len() ==> s[j].0 != s[i].0,
    ensures
        pairs_map(s).contains_key(s[i].0),
        pairs_map(s)[s[i].0] == s[i].1,
    decreases s.len(),
{
    if i < s.len() - 1 {
        lemma_last_pair_wins(s.drop_last(), i);
    }
}

proof fn lemma_first_pairs(all: Seq<(Seq<char>, Seq<char>)>, service: Seq<char>, n: nat)
    requires
        all.len() == n + 2,
        all[0] == ("service"@, service),
        all[1] == ("source"@, "wasm-wiretap"@),
    ensures
        (forall|j: int| 2 <= j < all.len() ==> all[j].0 != "service"@) ==> pairs_map(
            all,
        )["service"@] == service,
        (forall|j: int| 2 <= j < all.len() ==> all[j].0 != "source"@) ==> pairs_map(
            all,
        )["source"@] == "wasm-wiretap"@,
{
    reveal_strlit("service");
    reveal_strlit("source");
    assert("service"@ != "source"@) by {
        assert("service"@[1] != "source"@[1]);
    }
    if forall|j: int| 2 <= j < all.len() ==> all[j].0 != "service"@ {
        lemma_last_pair_wins(all, 0);
    }
    if forall|j: int| 2 <= j < all.len() ==> all[j].0 != "source"@ {
        lemma_last_pair_wins(all, 1);
    }
}


/// The value of a hexadecimal digit (either case).
pub open spec fn hex_value(c: char) -> Option<u32> {
    let u = c as u32;
    if 48 <= u <= 57 {
        Some((u - 48) as u32)
    } else if 97 <= u <= 102 {
        Some((u - 87) as u32)
    } else if 65 <= u <= 70 {
        Some((u - 55) as u32)
    } else {
        None
    }
}

/// The character a two-character JSON escape `\e` stands for.
pub open spec fn short_escape(e: char) -> Option<char> {
    if e == '"' {
        Some('"')
    } else if e == '\\' {
        Some('\\')
    } else if e == '/' {
        Some('/')
    } else if e == 'b' {
        Some(8u32 as char)
    } else if e == 't' {
        Some(9u32 as char)
    } else if e == 'n' {
        Some(10u32 as char)
    } else if e == 'f' {
        Some(12u32 as char)
    } else if e == 'r' {
        Some(13u32 as char)
    } else {
        None
    }
}

/// The value of four hexadecimal digits starting at `t[1]` (after the `u`
/// of a `\uXXXX` escape).
pub open spec fn hex4_value(t: Seq<char>) -> Option<u32> {
    if t.len() >= 6 && hex_value(t[2]) is Some && hex_value(t[3]) is Some && hex_value(
        t[4],
    ) is Some && hex_value(t[5]) is Some {
        Some(
            (hex_value(t[2])->0 * 4096 + hex_value(t[3])->0 * 256 + hex_value(t[4])->0 * 16
                + hex_value(t[5])->0) as u32,
        )
    } else {
        None
    }
}

/// Reads the contents of a JSON string (the text between its quotes) back
/// into characters: escapes are decoded (`\uXXXX` for characters of the
/// Basic Multilingual Plane outside the surrogates), and an unescaped `"`,
/// a control character or an unknown escape makes it fail.
pub open spec fn json_unescape(t: Seq<char>) -> Option<Seq<char>>
    decreases t.len(),
{
    if t.len() == 0 {
        Some(Seq::empty())
    } else if t[0] == '\\' {
        if t.len() >= 2 && short_escape(t[1]) is Some {
            match json_unescape(t.skip(2)) {
                Some(r) => Some(seq![short_escape(t[1])->0] + r),
                None => None,
            }
        } else if t.len() >= 6 && t[1] == 'u' && hex4_value(t) is Some && (hex4_value(t)->0
            < 0xD800 || hex4_value(t)->0 >= 0xE000) {
            match json_unescape(t.skip(6)) {
                Some(r) => Some(seq![(hex4_value(t)->0) as char] + r),
                None => None,
            }
        } else {
            None
        }
    } else if t[0] == '"' || (t[0] as u32) < 32 {
        None
    } else {
        match json_unescape(t.skip(1)) {
            Some(r) => Some(seq![t[0]] + r),
            None => None,
        }
    }
}

proof fn lemma_unescape_char(c: char, t: Seq<char>)
    ensures
        json_unescape(json_escape_char(c) + t) == match json_unescape(t) {
            Some(r) => Some(seq![c] + r),
            None => None::<Seq<char>>,
        },
{
    let e = json_escape_char(c);
    let w = e + t;
    let u = c as u32;
    if c == '"' || c == '\\' || u == 8 || u == 9 || u == 10 || u == 12 || u == 13 {
        assert(w.skip(2) =~= t);
        assert(w[0] == '\\');
        if u == 8 {
            assert(c == (8u32 as char));
        } else if u == 9 {
            assert(c == (9u32 as char));
        } else if u == 10 {
            assert(c == (10u32 as char));
        } else if u == 12 {
            assert(c == (12u32 as char));
        } else if u == 13 {
            assert(c == (13u32 as char));
        }
    } else if u < 32 {
        let hi = (u / 16) as nat;
        let lo = (u % 16) as nat;
        assert(hi == 0 || hi == 1);
        assert(w.skip(6) =~= t);
        assert(w[0] == '\\' && w[1] == 'u' && w[2] == '0' && w[3] == '0');
        assert(w[4] == hex_digit_lower(hi) && w[5] == hex_digit_lower(lo));
        assert(hex_value(w[4]) == Some(hi as u32));
        assert(hex_value(w[5]) == Some(lo as u32));
        assert(short_escape(w[1]) is None);
        assert(hex4_value(w) == Some(u));
        assert(c == (u as char));
    } else {
        assert(w[0] == c);
        assert(w.skip(1) =~= t);
    }
}

/// A string written by `serde_json` reads back as the same string: the text
/// between the quotes of `json_string_literal(s)` decodes to `s`. The log
/// line of a Loki payload and the log body of an OTLP payload are such
/// literals, so each decodes back to the text it was made from.
pub proof fn string_literal_decodes_back(s: Seq<char>)
    ensures
        json_string_literal(s) == seq!['"'] + json_escape(s) + seq!['"'],
        json_unescape(json_escape(s)) == Some(s),
    decreases s.len(),
{
    if s.len() == 0 {
        assert(json_escape(s) =~= Seq::<char>::empty());
    } else {
        string_literal_decodes_back(s.drop_first());
        lemma_unescape_char(s[0], json_escape(s.drop_first()));
        assert(seq![s[0]] + s.drop_first() =~= s);
    }
}


// ───────────────────── Reading body chunks from the host ─────────────────────

/// The host is asked for the next body chunk exactly while the buffer holds
/// fewer than `max` bytes; with no limit (`max == 0`) it is always asked.
pub proof fn chunks_are_read_until_the_limit(len: nat, max: usize)
    ensures
        max > 0 ==> (!buffer_full(len, max) <==> len < max),
        max == 0 ==> !buffer_full(len, max),
{
}

/// The buffer after the chunks arrive one after another, where a chunk that
/// arrives while the buffer is full is not read at all.
pub open spec fn read_all(buffer: Seq<u8>, max: usize, chunks: Seq<Seq<u8>>) -> Seq<u8>
    decreases chunks.len(),
{
    if chunks.len() == 0 {
        buffer
    } else {
        let before = read_all(buffer, max, chunks.drop_last());
        if buffer_full(before.len(), max) {
            before
        } else {
            absorb(before, max, chunks.last())
        }
    }
}

/// Capture that reads chunks only while the buffer is not full keeps the
/// first `min(body length, max)` bytes of a body, however it is cut into
/// chunks (all of it when `max == 0`).
pub proof fn reading_until_the_limit_keeps_the_body_prefix(max: usize, chunks: Seq<Seq<u8>>)
    ensures
        read_all(Seq::empty(), max, chunks) == kept_body(chunks.flatten(), max),
        max > 0 ==> read_all(Seq::empty(), max, chunks).len() == if chunks.flatten().len() < max {
            chunks.flatten().len()
        } else {
            max as nat
        },
{
    lemma_read_all(max, chunks);
    captured_body_is_body_prefix(max, chunks);
}

proof fn lemma_read_all(max: usize, chunks: Seq<Seq<u8>>)
    ensures
        read_all(Seq::empty(), max, chunks) == absorb_all(Seq::empty(), max, chunks),
        max > 0 ==> absorb_all(Seq::empty(), max, chunks).len() <= max,
    decreases chunks.len(),
{
    if chunks.len() > 0 {
        lemma_read_all(max, chunks.drop_last());
        let before = absorb_all(Seq::empty(), max, chunks.drop_last());
        if buffer_full(before.len(), max) {
            assert(absorb(before, max, chunks.last()) == before);
        }
        if max > 0 {
            body_stays_within_limit(before, max, chunks.last());
        }
    }
}

// ───────────────────────── The push path ─────────────────────────

/// Reading a configuration keeps a configured push path as it is, for every
/// backend, and uses the backend's default only when none is configured.
pub proof fn configured_push_path_is_kept(parsed: PluginConfig, settled: PluginConfig)
    requires
        parsed.settles_to(&settled),
    ensures
        parsed.upstream_path@.len() > 0 ==> settled.upstream_path@ == parsed.upstream_path@,
        parsed.upstream_path@.len() == 0 ==> settled.upstream_path@ == default_path(
            parsed.backend,
        ),
        settled.backend == parsed.backend,
{
}

/// The export call is a POST to the configured push path, for every backend
/// and every path, with the authority and then the payload headers.
pub proof fn export_call_posts_to_the_configured_path(config: PluginConfig)
    ensures
        export_headers(config).len() == 5,
        export_headers(config)[0] == (":method"@, "POST"@),
        export_headers(config)[1] == (":path"@, config.upstream_path@),
        export_headers(config)[2] == (":authority"@, config.spec_authority()),
        export_headers(config)[3] == ("content-type"@, "application/json"@),
        export_headers(config)[4] == ("user-agent"@, "wasm-wiretap/0.1"@),
{
}

// ───────────────────────── The Loki summary ─────────────────────────

/// The Loki `_msg` summary holds the whole method, path and authority: it
/// begins with the method, a space, the full path and a space, continues
/// with the authority, and ends with ` → ` and the status digits, so its
/// length is the sum of theirs plus 5, whatever their lengths.
pub proof fn loki_summary_holds_the_whole_request(data: CapturedData)
    ensures
        ({
            let m = data.method@;
            let p = data.path@;
            let a = data.authority@;
            let d = decimal(data.status_code as nat);
            let msg = loki_message(data);
            let i = m.len() as int;
            let j = i + 1 + p.len();
            let k = j + 1 + a.len();
            &&& msg.len() == m.len() + p.len() + a.len() + d.len() + 5
            &&& msg.subrange(0, i) == m
            &&& msg[i] == ' '
            &&& msg.subrange(i + 1, j) == p
            &&& msg[j] == ' '
            &&& msg.subrange(j + 1, k) == a
            &&& msg.subrange(k, k + 3) == seq![' ', '→', ' ']
            &&& msg.subrange(k + 3, msg.len() as int) == d
        }),
{
    reveal_strlit(" ");
    reveal_strlit(" → ");
    let m = data.method@;
    let p = data.path@;
    let a = data.authority@;
    let d = decimal(data.status_code as nat);
    let msg = loki_message(data);
    let i = m.len() as int;
    let j = i + 1 + p.len();
    let k = j + 1 + a.len();
    assert(msg =~= m + seq![' '] + p + seq![' '] + a + seq![' ', '→', ' '] + d);
    assert(msg.subrange(0, i) =~= m);
    assert(msg.subrange(i + 1, j) =~= p);
    assert(msg.subrange(j + 1, k) =~= a);
    assert(msg.subrange(k, k + 3) =~= seq![' ', '→', ' ']);
    assert(msg.subrange(k + 3, msg.len() as int) =~= d);
}


// ───────────────────────── OTLP attribute keys ─────────────────────────

/// Reads the contents of a JSON string up to its closing quote: the decoded
/// characters and what follows the quote, or None when no unescaped quote
/// ends it or it holds a control character or an unknown escape.
pub open spec fn read_escaped(t: Seq<char>) -> Option<(Seq<char>, Seq<char>)>
    decreases t.len(),
{
    if t.len() == 0 {
        None
    } else if t[0] == '"' {
        Some((Seq::empty(), t.skip(1)))
    } else if t[0] == '\\' {
        if t.len() >= 2 && short_escape(t[1]) is Some {
            match read_escaped(t.skip(2)) {
                Some((r, rest)) => Some((seq![short_escape(t[1])->0] + r, rest)),
                None => None,
            }
        } else if t.len() >= 6 && t[1] == 'u' && hex4_value(t) is Some && (hex4_value(t)->0
            < 0xD800 || hex4_value(t)->0 >= 0xE000) {
            match read_escaped(t.skip(6)) {
                Some((r, rest)) => Some((seq![(hex4_value(t)->0) as char] + r, rest)),
                None => None,
            }
        } else {
            None
        }
    } else if (t[0] as u32) < 32 {
        None
    } else {
        match read_escaped(t.skip(1)) {
            Some((r, rest)) => Some((seq![t[0]] + r, rest)),
            None => None,
        }
    }
}

proof fn lemma_read_escaped_char(c: char, t: Seq<char>)
    ensures
        read_escaped(json_escape_char(c) + t) == match read_escaped(t) {
            Some((r, rest)) => Some((seq![c] + r, rest)),
            None => None::<(Seq<char>, Seq<char>)>,
        },
{
    let e = json_escape_char(c);
    let w = e + t;
    let u = c as u32;
    if c == '"' || c == '\\' || u == 8 || u == 9 || u == 10 || u == 12 || u == 13 {
        assert(w.skip(2) =~= t);
        assert(w[0] == '\\');
        if u == 8 {
            assert(c == (8u32 as char));
        } else if u == 9 {
            assert(c == (9u32 as char));
        } else if u == 10 {
            assert(c == (10u32 as char));
        } else if u == 12 {
            assert(c == (12u32 as char));
        } else if u == 13 {
            assert(c == (13u32 as char));
        }
    } else if u < 32 {
        let hi = (u / 16) as nat;
        let lo = (u % 16) as nat;
        assert(hi == 0 || hi == 1);
        assert(w.skip(6) =~= t);
        assert(w[0] == '\\' && w[1] == 'u' && w[2] == '0' && w[3] == '0');
        assert(w[4] == hex_digit_lower(hi) && w[5] == hex_digit_lower(lo));
        assert(hex_value(w[4]) == Some(hi as u32));
        assert(hex_value(w[5]) == Some(lo as u32));
        assert(short_escape(w[1]) is None);
        assert(hex4_value(w) == Some(u));
        assert(c == (u as char));
    } else {
        assert(w[0] == c);
        assert(w.skip(1) =~= t);
    }
}

proof fn lemma_read_escaped(x: Seq<char>, rest: Seq<char>)
    ensures
        read_escaped(json_escape(x) + seq!['"'] + rest) == Some((x, rest)),
    decreases x.len(),
{
    if x.len() == 0 {
        assert(json_escape(x) + seq!['"'] + rest =~= seq!['"'] + rest);
        assert((seq!['"'] + rest).skip(1) =~= rest);
    } else {
        lemma_read_escaped(x.drop_first(), rest);
        lemma_read_escaped_char(x[0], json_escape(x.drop_first()) + seq!['"'] + rest);
        assert(json_escape(x) + seq!['"'] + rest =~= json_escape_char(x[0]) + (json_escape(
            x.drop_first(),
        ) + seq!['"'] + rest));
        assert(seq![x[0]] + x.drop_first() =~= x);
    }
}

/// Two OTLP attributes are the same text only when their keys and their
/// values are the same.
pub proof fn otel_attribute_text_is_unique(k1: Seq<char>, v1: Seq<char>, k2: Seq<char>, v2: Seq<char>)
    requires
        otel_kv_text(k1, v1) == otel_kv_text(k2, v2),
    ensures
        k1 == k2,
        v1 == v2,
{
    let p1 = "{\"key\":"@;
    let p2 = ",\"value\":{\"stringValue\":"@;
    let p3 = "}}"@;
    let tail1 = p2 + seq!['"'] + json_escape(v1) + seq!['"'] + p3;
    let tail2 = p2 + seq!['"'] + json_escape(v2) + seq!['"'] + p3;
    let t1 = otel_kv_text(k1, v1);
    let t2 = otel_kv_text(k2, v2);
    assert(t1 =~= p1 + seq!['"'] + (json_escape(k1) + seq!['"'] + tail1));
    assert(t2 =~= p1 + seq!['"'] + (json_escape(k2) + seq!['"'] + tail2));
    let n = p1.len() + 1;
    assert(t1.skip(n as int) =~= json_escape(k1) + seq!['"'] + tail1);
    assert(t2.skip(n as int) =~= json_escape(k2) + seq!['"'] + tail2);
    lemma_read_escaped(k1, tail1);
    lemma_read_escaped(k2, tail2);
    assert(k1 == k2 && tail1 == tail2);
    let n2 = p2.len() + 1;
    assert(tail1.skip(n2 as int) =~= json_escape(v1) + seq!['"'] + p3);
    assert(tail2.skip(n2 as int) =~= json_escape(v2) + seq!['"'] + p3);
    lemma_read_escaped(v1, p3);
    lemma_read_escaped(v2, p3);
}

/// The (key, value) pair of an optional attribute, when its value is present.
pub open spec fn optional_pair(key: Seq<char>, value: Option<String>) -> Seq<(Seq<char>, Seq<char>)> {
    match value {
        Some(v) => seq![(key, v@)],
        None => Seq::empty(),
    }
}

/// The keys and values of the log record attributes, in order.
pub open spec fn log_attribute_pairs(data: CapturedData) -> Seq<(Seq<char>, Seq<char>)> {
    seq![
        ("http.method"@, data.method@),
        ("http.target"@, data.path@),
        ("http.host"@, data.authority@),
        ("http.status_code"@, decimal(data.status_code as nat)),
        ("http.duration_ms"@, decimal(data.duration_ms as nat)),
    ] + optional_pair("http.request_id"@, data.request_id) + optional_pair(
        "net.peer.ip"@,
        data.source_address,
    ) + optional_pair("net.host.ip"@, data.destination_address)
}

proof fn lemma_optional_kv(texts: Seq<Seq<char>>, pairs: Seq<(Seq<char>, Seq<char>)>, key: Seq<char>, value: Option<String>)
    requires
        texts.len() == pairs.len(),
        forall|i: int| 0 <= i < texts.len() ==> #[trigger] texts[i] == otel_kv_text(pairs[i].0, pairs[i].1),
    ensures
        optional_kv(texts, key, value).len() == (pairs + optional_pair(key, value)).len(),
        forall|i: int|
            0 <= i < optional_kv(texts, key, value).len() ==> #[trigger] optional_kv(texts, key, value)[i]
                == otel_kv_text((pairs + optional_pair(key, value))[i].0, (pairs + optional_pair(key, value))[i].1),
{
}

proof fn lemma_log_attribute_pairs(data: CapturedData)
    ensures
        log_attribute_texts(data).len() == log_attribute_pairs(data).len(),
        forall|i: int|
            0 <= i < log_attribute_texts(data).len() ==> #[trigger] log_attribute_texts(data)[i]
                == otel_kv_text(log_attribute_pairs(data)[i].0, log_attribute_pairs(data)[i].1),
{
    let base = seq![
        otel_kv_text("http.method"@, data.method@),
        otel_kv_text("http.target"@, data.path@),
        otel_kv_text("http.host"@, data.authority@),
        otel_kv_text("http.status_code"@, decimal(data.status_code as nat)),
        otel_kv_text("http.duration_ms"@, decimal(data.duration_ms as nat)),
    ];
    let bp = seq![
        ("http.method"@, data.method@),
        ("http.target"@, data.path@),
        ("http.host"@, data.authority@),
        ("http.status_code"@, decimal(data.status_code as nat)),
        ("http.duration_ms"@, decimal(data.duration_ms as nat)),
    ];
    assert forall|i: int| 0 <= i < base.len() implies #[trigger] base[i] == otel_kv_text(bp[i].0, bp[i].1) by {}
    let t1 = optional_kv(base, "http.request_id"@, data.request_id);
    let p1 = bp + optional_pair("http.request_id"@, data.request_id);
    lemma_optional_kv(base, bp, "http.request_id"@, data.request_id);
    let t2 = optional_kv(t1, "net.peer.ip"@, data.source_address);
    let p2 = p1 + optional_pair("net.peer.ip"@, data.source_address);
    lemma_optional_kv(t1, p1, "net.peer.ip"@, data.source_address);
    lemma_optional_kv(t2, p2, "net.host.ip"@, data.destination_address);
    assert(log_attribute_pairs(data) =~= p2 + optional_pair("net.host.ip"@, data.destination_address));
}

proof fn lemma_address_keys_differ()
    ensures
        "net.peer.ip"@ != "http.method"@,
        "net.peer.ip"@ != "http.target"@,
        "net.peer.ip"@ != "http.host"@,
        "net.peer.ip"@ != "http.status_code"@,
        "net.peer.ip"@ != "http.duration_ms"@,
        "net.peer.ip"@ != "http.request_id"@,
        "net.peer.ip"@ != "net.host.ip"@,
        "net.host.ip"@ != "http.method"@,
        "net.host.ip"@ != "http.target"@,
        "net.host.ip"@ != "http.host"@,
        "net.host.ip"@ != "http.status_code"@,
        "net.host.ip"@ != "http.duration_ms"@,
        "net.host.ip"@ != "http.request_id"@,
{
    reveal_strlit("net.peer.ip");
    reveal_strlit("net.host.ip");
    reveal_strlit("http.method");
    reveal_strlit("http.target");
    reveal_strlit("http.host");
    reveal_strlit("http.status_code");
    reveal_strlit("http.duration_ms");
    reveal_strlit("http.request_id");
    assert("net.peer.ip"@[0] != "http.method"@[0]);
    assert("net.peer.ip"@[0] != "http.target"@[0]);
    assert("net.peer.ip"@[0] != "http.host"@[0]);
    assert("net.peer.ip"@[0] != "http.status_code"@[0]);
    assert("net.peer.ip"@[0] != "http.duration_ms"@[0]);
    assert("net.peer.ip"@[0] != "http.request_id"@[0]);
    assert("net.peer.ip"@[4] != "net.host.ip"@[4]);
    assert("net.host.ip"@[0] != "http.method"@[0]);
    assert("net.host.ip"@[0] != "http.target"@[0]);
    assert("net.host.ip"@[0] != "http.host"@[0]);
    assert("net.host.ip"@[0] != "http.status_code"@[0]);
    assert("net.host.ip"@[0] != "http.duration_ms"@[0]);
    assert("net.host.ip"@[0] != "http.request_id"@[0]);
}

/// In the OTLP log record attributes, a captured source address appears
/// exactly once, under the key `net.peer.ip`, and a captured destination
/// address exactly once, under `net.host.ip`; neither key appears when its
/// address was not captured.
pub proof fn log_attributes_name_each_address_once(data: CapturedData)
    ensures
        ({
            let texts = log_attribute_texts(data);
            &&& data.source_address matches Some(a) ==> exists|i: int|
                0 <= i < texts.len() && texts[i] == otel_kv_text("net.peer.ip"@, a@)
            &&& forall|i: int, v: Seq<char>|
                #![trigger texts[i], otel_kv_text("net.peer.ip"@, v)]
                0 <= i < texts.len() && texts[i] == otel_kv_text("net.peer.ip"@, v)
                    ==> (data.source_address matches Some(a) && a@ == v)
            &&& forall|i: int, j: int, v: Seq<char>, w: Seq<char>|
                #![trigger texts[i], texts[j], otel_kv_text("net.peer.ip"@, v), otel_kv_text("net.peer.ip"@, w)]
                0 <= i < texts.len() && 0 <= j < texts.len() && texts[i] == otel_kv_text("net.peer.ip"@, v) && texts[j] == otel_kv_text("net.peer.ip"@, w) ==> i == j
            &&& data.destination_address matches Some(a) ==> exists|i: int|
                0 <= i < texts.len() && texts[i] == otel_kv_text("net.host.ip"@, a@)
            &&& forall|i: int, v: Seq<char>|
                #![trigger texts[i], otel_kv_text("net.host.ip"@, v)]
                0 <= i < texts.len() && texts[i] == otel_kv_text("net.host.ip"@, v)
                    ==> (data.destination_address matches Some(a) && a@ == v)
            &&& forall|i: int, j: int, v: Seq<char>, w: Seq<char>|
                #![trigger texts[i], texts[j], otel_kv_text("net.host.ip"@, v), otel_kv_text("net.host.ip"@, w)]
                0 <= i < texts.len() && 0 <= j < texts.len() && texts[i] == otel_kv_text("net.host.ip"@, v) && texts[j] == otel_kv_text("net.host.ip"@, w) ==> i == j
        }),
{
    let texts = log_attribute_texts(data);
    let ps = log_attribute_pairs(data);
    lemma_log_attribute_pairs(data);
    lemma_address_keys_differ();
    let rid: int = if data.request_id is Some { 1 } else { 0 };
    let src_pos: int = 5 + rid;
    let dst_pos: int = 5 + rid + if data.source_address is Some { 1int } else { 0int };
    let peer = "net.peer.ip"@;
    let host = "net.host.ip"@;
    assert forall|i: int| 0 <= i < ps.len() && ps[i].0 == peer implies data.source_address is Some
        && i == src_pos && ps[i].1 == data.source_address->0@ by {}
    assert forall|i: int| 0 <= i < ps.len() && ps[i].0 == host implies data.destination_address is Some
        && i == dst_pos && ps[i].1 == data.destination_address->0@ by {}
    if data.source_address is Some {
        assert(ps[src_pos] == (peer, data.source_address->0@));
        assert(texts[src_pos] == otel_kv_text(peer, data.source_address->0@));
    }
    if data.destination_address is Some {
        assert(ps[dst_pos] == (host, data.destination_address->0@));
        assert(texts[dst_pos] == otel_kv_text(host, data.destination_address->0@));
    }
    assert forall|i: int, v: Seq<char>|
        #![trigger texts[i], otel_kv_text(peer, v)]
        0 <= i < texts.len() && texts[i] == otel_kv_text(peer, v) implies (
        data.source_address matches Some(a) && a@ == v) by {
        otel_attribute_text_is_unique(ps[i].0, ps[i].1, peer, v);
    }
    assert forall|i: int, j: int, v: Seq<char>, w: Seq<char>|
                #![trigger texts[i], texts[j], otel_kv_text(peer, v), otel_kv_text(peer, w)]
                0 <= i < texts.len() && 0 <= j < texts.len() && texts[i] == otel_kv_text(peer, v) && texts[j] == otel_kv_text(peer, w) implies i == j by {
        otel_attribute_text_is_unique(ps[i].0, ps[i].1, peer, v);
        otel_attribute_text_is_unique(ps[j].0, ps[j].1, peer, w);
    }
    assert forall|i: int, v: Seq<char>|
        #![trigger texts[i], otel_kv_text(host, v)]
        0 <= i < texts.len() && texts[i] == otel_kv_text(host, v) implies (
        data.destination_address matches Some(a) && a@ == v) by {
        otel_attribute_text_is_unique(ps[i].0, ps[i].1, host, v);
    }
    assert forall|i: int, j: int, v: Seq<char>, w: Seq<char>|
                #![trigger texts[i], texts[j], otel_kv_text(host, v), otel_kv_text(host, w)]
                0 <= i < texts.len() && 0 <= j < texts.len() && texts[i] == otel_kv_text(host, v) && texts[j] == otel_kv_text(host, w) implies i == j by {
        otel_attribute_text_is_unique(ps[i].0, ps[i].1, host, v);
        otel_attribute_text_is_unique(ps[j].0, ps[j].1, host, w);
    }
}

} // verus!
