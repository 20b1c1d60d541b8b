//! The dynamic log context (at most ten keys; changes other than removals
//! pass a rate limit), logfmt quoting and lines, and the fields of a log
//! event.

use vstd::prelude::*;
use vstd::string::*;
use crate::errors::LogContextError;
use crate::json::str_eq;
use crate::text::{chars_of, string_from_chars};
use crate::assoc::{keys_distinct, entries_map, lemma_absent, lemma_index, lemma_len, lemma_update, lemma_remove};

verus! {

/// Most keys the log context holds.
pub const MAX_CONTEXT_KEYS: usize = 10;

/// The entries as mathematical values.
pub open spec fn pair_views(s: Seq<(String, String)>) -> Seq<(Seq<char>, Seq<char>)> {
    s.map_values(|e: (String, String)| (e.0@, e.1@))
}

/// The dynamic context that every log line carries (such as a test run's
/// id): a map from keys to non-empty values, with at most ten keys.
#[derive(Clone, Debug)]
pub struct LogContext {
    entries: Vec<(String, String)>,
}

impl View for LogContext {
    type V = Map<Seq<char>, Seq<char>>;

    closed spec fn view(&self) -> Map<Seq<char>, Seq<char>> {
        entries_map(pair_views(self.entries@))
    }
}

impl LogContext {
    /// Keys are distinct, values are not empty, and there are at most ten.
    pub closed spec fn wf(&self) -> bool {
        &&& keys_distinct(pair_views(self.entries@))
        &&& self.entries@.len() <= MAX_CONTEXT_KEYS
        &&& forall|i: int| 0 <= i < self.entries@.len() ==> (#[trigger] self.entries@[i]).1@.len() > 0
    }

    /// An empty context.
    pub fn new() -> (r: Self)
        ensures
            r.wf(),
            r@ == Map::<Seq<char>, Seq<char>>::empty(),
    {
        let r = LogContext { entries: Vec::new() };
        assert(pair_views(r.entries@) =~= Seq::<(Seq<char>, Seq<char>)>::empty());
        r
    }

    /// The map is finite, has at most ten keys, and no empty value.
    pub proof fn lemma_wf(&self)
        requires
            self.wf(),
        ensures
            self@.dom().finite(),
            self@.dom().len() <= MAX_CONTEXT_KEYS,
            forall|k: Seq<char>| #[trigger] self@.dom().contains(k) ==> self@[k].len() > 0,
    {
        let s = pair_views(self.entries@);
        lemma_len(s);
        assert forall|k: Seq<char>| #[trigger] self@.dom().contains(k) implies self@[k].len() > 0 by {
            if forall|i: int| 0 <= i < s.len() ==> s[i].0 != k {
                lemma_absent(s, k);
            } else {
                let i = choose|i: int| 0 <= i < s.len() && s[i].0 == k;
                lemma_index(s, i);
                assert(self.entries@[i].1@.len() > 0);
            }
        }
    }

    fn find(&self, key: &str) -> (r: Option<usize>)
        ensures
            match r {
                Some(i) => i < self.entries@.len() && self.entries@[i as int].0@ == key@,
                None => forall|i: int| 0 <= i < self.entries@.len() ==> self.entries@[i].0@ != key@,
            },
    {
        let mut i: usize = 0;
        while i < self.entries.len()
            invariant
                i <= self.entries@.len(),
                forall|j: int| 0 <= j < i ==> self.entries@[j].0@ != key@,
            decreases self.entries.len() - i,
        {
            if str_eq(self.entries[i].0.as_str(), key) {
                return Some(i);
            }
            i = i + 1;
        }
        None
    }

    /// The number of keys.
    pub fn len(&self) -> (r: usize)
        requires
            self.wf(),
        ensures
            r == self@.dom().len(),
    {
        proof {
            lemma_len(pair_views(self.entries@));
        }
        self.entries.len()
    }

    /// The value of a key.
    pub fn get(&self, key: &str) -> (r: Option<String>)
        requires
            self.wf(),
        ensures
            match r {
                Some(v) => self@.dom().contains(key@) && self@[key@] == v@,
                None => !self@.dom().contains(key@),
            },
    {
        let s = Ghost(pair_views(self.entries@));
        match self.find(key) {
            Some(i) => {
                proof {
                    lemma_index(s@, i as int);
                }
                Some(self.entries[i].1.clone())
            },
            None => {
                proof {
                    lemma_absent(s@, key@);
                }
                None
            },
        }
    }

    /// A copy of the entries (`get_log_context`): distinct keys that make up
    /// the context's map.
    pub fn snapshot(&self) -> (r: Vec<(String, String)>)
        requires
            self.wf(),
        ensures
            keys_distinct(pair_views(r@)),
            entries_map(pair_views(r@)) == self@,
    {
        let mut out: Vec<(String, String)> = Vec::new();
        let mut i: usize = 0;
        while i < self.entries.len()
            invariant
                i <= self.entries@.len(),
                out@.len() == i,
                forall|j: int| 0 <= j < i ==> (#[trigger] out@[j]).0@ == self.entries@[j].0@ && out@[j].1@ == self.entries@[j].1@,
            decreases self.entries.len() - i,
        {
            let k = self.entries[i].0.clone();
            let v = self.entries[i].1.clone();
            out.push((k, v));
            i = i + 1;
        }
        assert(pair_views(out@) =~= pair_views(self.entries@));
        out
    }
}

/// Whether a change removes its key: no value, or an empty one.
pub open spec fn is_removal_spec(value: Option<String>) -> bool {
    match value {
        Some(v) => v@.len() == 0,
        None => true,
    }
}

/// Whether a change removes its key (and so passes without the rate limit).
pub fn is_removal(value: &Option<String>) -> (r: bool)
    ensures
        r == is_removal_spec(*value),
{
    match value {
        Some(v) => v.as_str().is_empty(),
        None => true,
    }
}

/// Sets or removes a key of the log context. A removal (no value, or an
/// empty one) always succeeds. Any other change needs `rate_ok`, what the
/// rate limiter (ten changes a second) answered for it, else it fails with
/// `RateLimitExceeded`; a new key when ten are set fails with
/// `MaxKeysExceeded`. A failed change leaves the context as it was.
pub fn set_log_context(ctx: &mut LogContext, key: String, value: Option<String>, rate_ok: bool) -> (r: Result<(), LogContextError>)
    requires
        old(ctx).wf(),
    ensures
        final(ctx).wf(),
        is_removal_spec(value) ==> r is Ok && final(ctx)@ == old(ctx)@.remove(key@),
        !is_removal_spec(value) && !rate_ok ==> r == Err::<(), LogContextError>(LogContextError::RateLimitExceeded)
            && final(ctx)@ == old(ctx)@,
        !is_removal_spec(value) && rate_ok && !old(ctx)@.dom().contains(key@) && old(ctx)@.dom().len() >= MAX_CONTEXT_KEYS
            ==> r == Err::<(), LogContextError>(LogContextError::MaxKeysExceeded) && final(ctx)@ == old(ctx)@,
        !is_removal_spec(value) && rate_ok && (old(ctx)@.dom().contains(key@) || old(ctx)@.dom().len() < MAX_CONTEXT_KEYS)
            ==> r is Ok && final(ctx)@ == old(ctx)@.insert(key@, value->0@),
{
    let ghost s = pair_views(ctx.entries@);
    proof {
        lemma_len(s);
    }
    let found = ctx.find(key.as_str());
    if is_removal(&value) {
        match found {
            Some(i) => {
                proof {
                    lemma_remove(s, i as int);
                    assert(pair_views(ctx.entries@.remove(i as int)) =~= s.remove(i as int));
                }
                ctx.entries.remove(i);
            },
            None => {
                proof {
                    lemma_absent(s, key@);
                    assert(ctx@ =~= ctx@.remove(key@));
                }
            },
        }
        return Ok(());
    }
    if !rate_ok {
        return Err(LogContextError::RateLimitExceeded);
    }
    let v = match value {
        Some(v) => v,
        None => String::new(),
    };
    match found {
        Some(i) => {
            proof {
                assert(s[i as int].0 == key@);
                lemma_index(s, i as int);
                lemma_update(s, i as int, v@);
                assert(pair_views(ctx.entries@.update(i as int, (key, v))) =~= s.update(i as int, (s[i as int].0, v@)));
            }
            ctx.entries.set(i, (key, v));
            proof {
                assert(pair_views(ctx.entries@) =~= s.update(i as int, (key@, v@)));
            }
            Ok(())
        },
        None => {
            proof {
                lemma_absent(s, key@);
            }
            if ctx.entries.len() >= MAX_CONTEXT_KEYS {
                return Err(LogContextError::MaxKeysExceeded);
            }
            proof {
                assert(pair_views(ctx.entries@.push((key, v))) =~= s.push((key@, v@)));
            }
            ctx.entries.push((key, v));
            proof {
                assert(pair_views(ctx.entries@) =~= s.push((key@, v@)));
                assert(s.push((key@, v@)).drop_last() =~= s);
            }
            Ok(())
        },
    }
}

/// The entries of the log context (see `LogContext::snapshot`).
pub fn get_log_context(ctx: &LogContext) -> (r: Vec<(String, String)>)
    requires
        ctx.wf(),
    ensures
        keys_distinct(pair_views(r@)),
        entries_map(pair_views(r@)) == ctx@,
{
    ctx.snapshot()
}

/// A ten-key context never takes an eleventh key.
pub proof fn law_context_holds_at_most_ten_keys(ctx: LogContext)
    requires
        ctx.wf(),
    ensures
        ctx@.dom().len() <= MAX_CONTEXT_KEYS,
{
    ctx.lemma_wf();
}


/// Whether a logfmt value must be quoted: it holds a space, `=` or `"`.
pub open spec fn needs_quotes(s: Seq<char>) -> bool {
    s.contains(' ') || s.contains('=') || s.contains('"')
}

/// The text with each `"` escaped as `\"`.
pub open spec fn escape_quotes(s: Seq<char>) -> Seq<char>
    decreases s.len(),
{
    if s.len() == 0 {
        Seq::empty()
    } else {
        escape_quotes(s.drop_last()) + if s.last() == '"' { seq!['\\', '"'] } else { seq![s.last()] }
    }
}

/// A value as logfmt writes it: quoted, with its quotes escaped, when it
/// needs quotes; else as it is.
pub open spec fn logfmt_value(s: Seq<char>) -> Seq<char> {
    if needs_quotes(s) {
        seq!['"'] + escape_quotes(s) + seq!['"']
    } else {
        s
    }
}

/// Quotes a logfmt value if it contains special characters (see `logfmt_value`).
pub fn quote_logfmt_value(val: &str) -> (r: String)
    ensures
        r@ == logfmt_value(val@),
{
    let cs = chars_of(val);
    let mut special = false;
    let mut i: usize = 0;
    while i < cs.len()
        invariant
            cs@ == val@,
            i <= cs@.len(),
            special == (cs@.subrange(0, i as int).contains(' ') || cs@.subrange(0, i as int).contains('=')
                || cs@.subrange(0, i as int).contains('"')),
        decreases cs.len() - i,
    {
        let c = cs[i];
        proof {
            let a = cs@.subrange(0, i as int);
            let b = cs@.subrange(0, i + 1);
            assert(b =~= a.push(c));
            assert forall|x: char| b.contains(x) <==> (a.contains(x) || x == c) by {
                if b.contains(x) {
                    let k = choose|k: int| 0 <= k < b.len() && b[k] == x;
                    if k < a.len() {
                        assert(a[k] == x);
                    }
                }
                if a.contains(x) {
                    let k = choose|k: int| 0 <= k < a.len() && a[k] == x;
                    assert(b[k] == x);
                }
                if x == c {
                    assert(b[i as int] == x);
                }
            }
        }
        if c == ' ' || c == '=' || c == '"' {
            special = true;
        }
        i = i + 1;
    }
    assert(cs@.subrange(0, i as int) =~= cs@);
    if !special {
        return String::from_str(val);
    }
    let mut out: Vec<char> = Vec::new();
    out.push('"');
    let mut j: usize = 0;
    while j < cs.len()
        invariant
            cs@ == val@,
            j <= cs@.len(),
            out@ == seq!['"'] + escape_quotes(cs@.subrange(0, j as int)),
        decreases cs.len() - j,
    {
        let c = cs[j];
        proof {
            assert(cs@.subrange(0, j + 1).drop_last() =~= cs@.subrange(0, j as int));
        }
        if c == '"' {
            out.push('\\');
            out.push('"');
        } else {
            out.push(c);
        }
        proof {
            assert(out@ =~= seq!['"'] + escape_quotes(cs@.subrange(0, j + 1)));
        }
        j = j + 1;
    }
    assert(cs@.subrange(0, j as int) =~= cs@);
    out.push('"');
    assert(out@ =~= seq!['"'] + escape_quotes(val@) + seq!['"']);
    string_from_chars(&out)
}

/// The level of log lines kept.
#[derive(Clone, Copy, Debug, PartialEq, Eq, Structural)]
pub enum LogLevel {
    Trace,
    Debug,
    Info,
    Warn,
    Error,
}

/// The level a name stands for: `trace`, `debug`, `info`, `warn` or
/// `error`; any other name means `info`.
pub open spec fn log_level_of(name: Seq<char>) -> LogLevel {
    if name == "trace"@ {
        LogLevel::Trace
    } else if name == "debug"@ {
        LogLevel::Debug
    } else if name == "info"@ {
        LogLevel::Info
    } else if name == "warn"@ {
        LogLevel::Warn
    } else if name == "error"@ {
        LogLevel::Error
    } else {
        LogLevel::Info
    }
}

/// Reads a log level name (see `log_level_of`).
pub fn parse_log_level(level: &str) -> (r: LogLevel)
    ensures
        r == log_level_of(level@),
{
    if str_eq(level, "trace") {
        LogLevel::Trace
    } else if str_eq(level, "debug") {
        LogLevel::Debug
    } else if str_eq(level, "info") {
        LogLevel::Info
    } else if str_eq(level, "warn") {
        LogLevel::Warn
    } else if str_eq(level, "error") {
        LogLevel::Error
    } else {
        LogLevel::Info
    }
}

/// The text without leading double quotes.
pub open spec fn strip_leading_quotes(s: Seq<char>) -> Seq<char>
    decreases s.len(),
{
    if s.len() > 0 && s[0] == '"' {
        strip_leading_quotes(s.drop_first())
    } else {
        s
    }
}

/// The text without trailing double quotes.
pub open spec fn strip_trailing_quotes(s: Seq<char>) -> Seq<char>
    decreases s.len(),
{
    if s.len() > 0 && s.last() == '"' {
        strip_trailing_quotes(s.drop_last())
    } else {
        s
    }
}

/// `trim_matches('"')`: the text without leading and trailing double quotes.
pub open spec fn trim_quotes(s: Seq<char>) -> Seq<char> {
    strip_trailing_quotes(strip_leading_quotes(s))
}

proof fn lemma_strip_leading(s: Seq<char>, i: int)
    requires
        0 <= i <= s.len(),
        forall|k: int| 0 <= k < i ==> s[k] == '"',
        i == s.len() || s[i] != '"',
    ensures
        strip_leading_quotes(s) == s.subrange(i, s.len() as int),
    decreases i,
{
    if i > 0 {
        assert(s.drop_first().subrange(i - 1, s.drop_first().len() as int) =~= s.subrange(i, s.len() as int));
        lemma_strip_leading(s.drop_first(), i - 1);
    } else {
        assert(s.subrange(0, s.len() as int) =~= s);
    }
}

proof fn lemma_strip_trailing(s: Seq<char>, j: int)
    requires
        0 <= j <= s.len(),
        forall|k: int| j <= k < s.len() ==> s[k] == '"',
        j == 0 || s[j - 1] != '"',
    ensures
        strip_trailing_quotes(s) == s.subrange(0, j),
    decreases s.len() - j,
{
    if j < s.len() {
        lemma_strip_trailing(s.drop_last(), j);
        assert(s.drop_last().subrange(0, j) =~= s.subrange(0, j));
    } else {
        assert(s.subrange(0, j) =~= s);
    }
}

fn trim_quote_chars(s: &str) -> (r: String)
    ensures
        r@ == trim_quotes(s@),
{
    let cs = chars_of(s);
    let n = cs.len();
    let mut i: usize = 0;
    while i < n && cs[i] == '"'
        invariant
            cs@ == s@,
            n == cs@.len(),
            i <= n,
            forall|k: int| 0 <= k < i ==> cs@[k] == '"',
        decreases n - i,
    {
        i = i + 1;
    }
    let mut j: usize = n;
    while j > i && cs[j - 1] == '"'
        invariant
            cs@ == s@,
            n == cs@.len(),
            i <= j <= n,
            forall|k: int| j <= k < n ==> cs@[k] == '"',
        decreases j,
    {
        j = j - 1;
    }
    let mut out: Vec<char> = Vec::new();
    let mut k: usize = i;
    while k < j
        invariant
            cs@ == s@,
            i <= k <= j <= n,
            n == cs@.len(),
            out@ == cs@.subrange(i as int, k as int),
        decreases j - k,
    {
        out.push(cs[k]);
        k = k + 1;
        assert(out@ =~= cs@.subrange(i as int, k as int));
    }
    proof {
        lemma_strip_leading(s@, i as int);
        let t = s@.subrange(i as int, n as int);
        assert forall|k: int| j - i <= k < t.len() implies t[k] == '"' by {
            assert(t[k] == s@[k + i]);
        }
        if j > i {
            assert(t[j - i - 1] == s@[j - 1]);
        }
        lemma_strip_trailing(t, j - i);
        assert(t.subrange(0, j - i) =~= cs@.subrange(i as int, j as int));
    }
    string_from_chars(&out)
}

/// The message and the other fields of a log event, in order.
#[derive(Clone, Debug)]
pub struct FieldCollector {
    pub message: String,
    pub fields: Vec<(String, String)>,
}

impl FieldCollector {
    /// No message and no fields.
    pub fn new() -> (r: Self)
        ensures
            r.message@.len() == 0,
            r.fields@.len() == 0,
    {
        FieldCollector { message: String::new(), fields: Vec::new() }
    }

    /// Records a field with the `Debug` text of its value: fields under
    /// `log.` are tracing's own and are skipped; the value loses its
    /// surrounding double quotes; `message` sets the message, any other name
    /// adds a field.
    pub fn record_field(&mut self, name: &str, debug_text: &str)
        ensures
            crate::text::starts_with_seq(name@, "log."@) ==> *final(self) == *old(self),
            !crate::text::starts_with_seq(name@, "log."@) && name@ == "message"@ ==> final(self).message@
                == trim_quotes(debug_text@) && final(self).fields == old(self).fields,
            !crate::text::starts_with_seq(name@, "log."@) && name@ != "message"@ ==> final(self).message
                == old(self).message && pair_views(final(self).fields@) == pair_views(old(self).fields@).push(
                (name@, trim_quotes(debug_text@)),
            ),
    {
        if crate::text::str_starts_with(name, "log.") {
            return;
        }
        let val = trim_quote_chars(debug_text);
        if str_eq(name, "message") {
            self.message = val;
        } else {
            let ghost before = self.fields@;
            self.fields.push((String::from_str(name), val));
            proof {
                assert(pair_views(self.fields@) =~= pair_views(before).push((name@, trim_quotes(debug_text@))));
            }
        }
    }
}

/// ` key=value` for each pair, the value as logfmt writes it.
pub open spec fn logfmt_pairs(ps: Seq<(Seq<char>, Seq<char>)>) -> Seq<char>
    decreases ps.len(),
{
    if ps.len() == 0 {
        Seq::empty()
    } else {
        logfmt_pairs(ps.drop_last()) + " "@ + ps.last().0 + "="@ + logfmt_value(ps.last().1)
    }
}

/// A logfmt log line: `time=… level=…`, the message when there is one, the
/// log context, then the event's other fields.
pub open spec fn logfmt_line(time: Seq<char>, level: Seq<char>, message: Seq<char>, context: Seq<(Seq<char>, Seq<char>)>, fields: Seq<(Seq<char>, Seq<char>)>) -> Seq<char> {
    "time="@ + time + " level="@ + level + (if message.len() > 0 {
        " message="@ + logfmt_value(message)
    } else {
        Seq::<char>::empty()
    }) + logfmt_pairs(context) + logfmt_pairs(fields)
}

fn append_pairs(s: &mut String, ps: &Vec<(String, String)>)
    ensures
        final(s)@ == old(s)@ + logfmt_pairs(pair_views(ps@)),
{
    let ghost start = s@;
    let mut i: usize = 0;
    while i < ps.len()
        invariant
            i <= ps@.len(),
            s@ == start + logfmt_pairs(pair_views(ps@.subrange(0, i as int))),
        decreases ps.len() - i,
    {
        s.append(" ");
        s.append(ps[i].0.as_str());
        s.append("=");
        let q = quote_logfmt_value(ps[i].1.as_str());
        s.append(q.as_str());
        proof {
            let sub = pair_views(ps@.subrange(0, i + 1));
            assert(sub.drop_last() =~= pair_views(ps@.subrange(0, i as int)));
            assert(sub.last() == (ps@[i as int].0@, ps@[i as int].1@));
        }
        i = i + 1;
    }
    assert(ps@.subrange(0, i as int) =~= ps@);
}

/// Writes a logfmt log line (see `logfmt_line`).
pub fn format_log_line(time: &str, level: &str, message: &str, context: &Vec<(String, String)>, fields: &Vec<(String, String)>) -> (r: String)
    ensures
        r@ == logfmt_line(time@, level@, message@, pair_views(context@), pair_views(fields@)),
{
    let mut s = String::from_str("time=");
    s.append(time);
    s.append(" level=");
    s.append(level);
    let ghost head = s@;
    if !message.is_empty() {
        s.append(" message=");
        let q = quote_logfmt_value(message);
        s.append(q.as_str());
    }
    append_pairs(&mut s, context);
    append_pairs(&mut s, fields);
    s
}

/// Where a log file past its size limit is cut: the newer half of the
/// limit is kept, from `file_len - max_size_bytes / 2`; `None` while the
/// file is within the limit.
pub fn rotation_offset(file_len: u64, max_size_bytes: u64) -> (r: Option<u64>)
    ensures
        r == if file_len > max_size_bytes {
            Some((file_len - max_size_bytes / 2) as u64)
        } else {
            None::<u64>
        },
{
    if file_len > max_size_bytes {
        Some(file_len - max_size_bytes / 2)
    } else {
        None
    }
}

/// The index of the first line break at or after `i`.
pub open spec fn first_newline(b: Seq<u8>, i: int) -> Option<int>
    decreases b.len() - i,
{
    if i < 0 || i >= b.len() {
        None
    } else if b[i] == 10 {
        Some(i)
    } else {
        first_newline(b, i + 1)
    }
}

/// The kept tail of a rotated log, from after its first line break so that
/// it starts with a whole line; unchanged when it has no line break.
pub open spec fn whole_lines(b: Seq<u8>) -> Seq<u8> {
    match first_newline(b, 0) {
        Some(k) => b.subrange(k + 1, b.len() as int),
        None => b,
    }
}

/// Drops the partial first line of a rotated log's tail (see `whole_lines`).
pub fn drop_partial_line(buffer: Vec<u8>) -> (r: Vec<u8>)
    ensures
        r@ == whole_lines(buffer@),
{
    let mut i: usize = 0;
    while i < buffer.len() && buffer[i] != 10
        invariant
            i <= buffer@.len(),
            first_newline(buffer@, 0) == first_newline(buffer@, i as int),
        decreases buffer.len() - i,
    {
        i = i + 1;
    }
    if i == buffer.len() {
        return buffer;
    }
    let mut out: Vec<u8> = Vec::new();
    let mut k: usize = i + 1;
    while k < buffer.len()
        invariant
            i < buffer@.len(),
            i + 1 <= k <= buffer@.len(),
            out@ == buffer@.subrange(i + 1, k as int),
        decreases buffer.len() - k,
    {
        out.push(buffer[k]);
        k = k + 1;
        assert(out@ =~= buffer@.subrange(i + 1, k as int));
    }
    out
}

} // verus!
