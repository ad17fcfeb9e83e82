//! Payloads as display lines: JSON flattened or pretty-printed, and the
//! narrative of agent logs.
use crate::json::{parse_json, pretty_json, Json};
use crate::json;
use crate::sort::{stable_sort, Order, Ranked};
use crate::sort;
use crate::text::{
    cat, cat3, join, less, replace, split_lines, starts_with, str_eq, trim, usize_text,
};
use crate::text;
use vstd::prelude::*;

verus! {

/// How JSON is shown.
#[derive(Debug, Clone, Copy, PartialEq, Eq, Structural)]
pub enum JsonViewMode {
    Humanized,
    RawPretty,
}

fn one_line(s: &str) -> (r: Vec<String>)
    ensures
        text::texts(r@) == seq![s@],
{
    let mut v: Vec<String> = Vec::new();
    v.push(s.to_owned());
    assert(text::texts(v@) =~= seq![s@]);
    v
}

fn push_text(v: &mut Vec<String>, s: String)
    ensures
        text::texts(final(v)@) == text::texts(old(v)@).push(s@),
{
    let ghost before = text::texts(v@);
    v.push(s);
    assert(text::texts(v@) =~= before.push(s@));
}

// ── Flattening ───────────────────────────────────────────────────────────────

/// What a path is called; the root is `value`.
pub open spec fn path_label(prefix: Seq<char>) -> Seq<char> {
    if prefix.len() == 0 {
        "value"@
    } else {
        prefix
    }
}

/// What a path is called; the root is `value`.
pub fn label(prefix: &str) -> (r: &str)
    ensures
        r@ == path_label(prefix@),
{
    if prefix.is_empty() {
        "value"
    } else {
        prefix
    }
}

/// A value without parts.
pub open spec fn is_scalar(v: Json) -> bool {
    !(v is Array) && !(v is Object)
}

/// The text of a value without parts.
pub open spec fn scalar_text(v: Json) -> Seq<char> {
    match v {
        Json::Str(s) => s@,
        Json::Number(n) => n@,
        Json::Bool(b) => if b {
            "true"@
        } else {
            "false"@
        },
        _ => "null"@,
    }
}

/// The text of a value without parts.
pub fn scalar_to_string(v: &Json) -> (r: String)
    requires
        is_scalar(*v),
    ensures
        r@ == scalar_text(*v),
{
    match v {
        Json::Str(s) => s.clone(),
        Json::Number(n) => n.clone(),
        Json::Bool(b) => if *b {
            "true".to_owned()
        } else {
            "false".to_owned()
        },
        _ => "null".to_owned(),
    }
}

/// A key of an object with its position; keys are ordered as text.
pub struct KeyRank<'a> {
    pub key: &'a str,
    pub idx: usize,
}

/// What a key is ordered by.
pub struct KeyAt {
    pub key: Seq<char>,
    pub idx: usize,
}

impl<'a> View for KeyRank<'a> {
    type V = KeyAt;

    open spec fn view(&self) -> KeyAt {
        KeyAt { key: self.key@, idx: self.idx }
    }
}

impl Order for KeyAt {
    open spec fn before(self, other: Self) -> bool {
        text::text_less(self.key, other.key)
    }

    proof fn before_asymmetric(a: Self, b: Self) {
        if text::text_less(b.key, a.key) {
            text::lemma_less_transitive(a.key, b.key, a.key);
            text::lemma_less_irreflexive(a.key);
        }
    }

    proof fn not_before_transitive(a: Self, b: Self, c: Self) {
        text::lemma_less_total(a.key, b.key);
        text::lemma_less_total(b.key, c.key);
        if c.before(a) && text::text_less(a.key, b.key) && text::text_less(b.key, c.key) {
            text::lemma_less_transitive(a.key, b.key, c.key);
            text::lemma_less_transitive(c.key, a.key, c.key);
            text::lemma_less_irreflexive(c.key);
        }
    }
}

impl<'a> Ranked for KeyRank<'a> {
    fn is_before(&self, other: &Self) -> (r: bool) {
        less(self.key, other.key)
    }
}

/// The positions of an object's entries, in order of their keys.
pub open spec fn key_order(e: Seq<(String, Json)>) -> Seq<KeyAt> {
    sort::stable_sorted(Seq::new(e.len(), |i: int| KeyAt { key: e[i].0@, idx: i as usize }))
}

/// The path of an object's field.
pub open spec fn field_path(prefix: Seq<char>, key: Seq<char>) -> Seq<char> {
    if prefix.len() == 0 {
        key
    } else {
        prefix + "."@ + key
    }
}

/// The path of an array's item.
pub open spec fn item_path(prefix: Seq<char>, i: nat) -> Seq<char> {
    if prefix.len() == 0 {
        "items["@ + text::dec(i) + "]"@
    } else {
        prefix + "["@ + text::dec(i) + "]"@
    }
}

/// One line per scalar, with its path; objects in order of their keys. What
/// lies deeper than `max` is cut off.
pub open spec fn flat(prefix: Seq<char>, v: Json, depth: nat, max: nat) -> Seq<Seq<char>>
    decreases max + 2 - depth, 0nat,
{
    if depth > max {
        seq![path_label(prefix) + ": <max depth reached>"@]
    } else {
        match v {
            Json::Object(e) => flat_fields(prefix, e@, key_order(e@), depth + 1, max),
            Json::Array(a) => flat_items(prefix, a@, depth + 1, max),
            _ => seq![path_label(prefix) + ": "@ + scalar_text(v)],
        }
    }
}

/// The lines of an array's items.
pub open spec fn flat_items(prefix: Seq<char>, a: Seq<Json>, depth: nat, max: nat) -> Seq<Seq<char>>
    decreases max + 2 - depth, a.len() + 1,
{
    if a.len() == 0 || depth > max + 1 {
        seq![]
    } else {
        flat_items(prefix, a.drop_last(), depth, max) + flat(
            item_path(prefix, (a.len() - 1) as nat),
            a.last(),
            depth,
            max,
        )
    }
}

/// The lines of an object's fields, in the given order.
pub open spec fn flat_fields(
    prefix: Seq<char>,
    e: Seq<(String, Json)>,
    order: Seq<KeyAt>,
    depth: nat,
    max: nat,
) -> Seq<Seq<char>>
    decreases max + 2 - depth, order.len() + 1,
{
    if order.len() == 0 || depth > max + 1 {
        seq![]
    } else {
        let k = order.last();
        flat_fields(prefix, e, order.drop_last(), depth, max) + flat(
            field_path(prefix, k.key),
            e[k.idx as int].1,
            depth,
            max,
        )
    }
}

fn sorted_keys<'a>(e: &'a Vec<(String, Json)>) -> (r: Vec<KeyRank<'a>>)
    ensures
        sort::views(r@) == key_order(e@),
{
    let ghost all = Seq::new(e@.len(), |i: int| KeyAt { key: e@[i].0@, idx: i as usize });
    let mut keys: Vec<KeyRank<'a>> = Vec::new();
    let mut i: usize = 0;
    assert(sort::views(keys@) =~= all.take(0));
    while i < e.len()
        invariant
            i <= e@.len(),
            all == Seq::new(e@.len(), |i: int| KeyAt { key: e@[i].0@, idx: i as usize }),
            sort::views(keys@) == all.take(i as int),
        decreases e@.len() - i,
    {
        let ghost before = sort::views(keys@);
        keys.push(KeyRank { key: e[i].0.as_str(), idx: i });
        assert(sort::views(keys@) =~= before.push(all[i as int]));
        assert(sort::views(keys@) =~= all.take(i + 1));
        i += 1;
    }
    assert(all.take(i as int) =~= all);
    stable_sort(keys)
}

/// The order of the keys holds every position, each with its own key.
proof fn lemma_key_order(e: Seq<(String, Json)>)
    requires
        e.len() <= usize::MAX,
    ensures
        forall|k: int|
            0 <= k < key_order(e).len() ==> (#[trigger] key_order(e)[k]).idx < e.len() && key_order(
                e,
            )[k].key == e[key_order(e)[k].idx as int].0@,
        key_order(e).len() == e.len(),
{
    broadcast use vstd::seq_lib::group_to_multiset_ensures;

    let all = Seq::new(e.len(), |i: int| KeyAt { key: e[i].0@, idx: i as usize });
    let sorted = key_order(e);
    sort::lemma_stable_sorted(all);
    assert forall|k: int| 0 <= k < sorted.len() implies (#[trigger] sorted[k]).idx < e.len()
        && sorted[k].key == e[sorted[k].idx as int].0@ by {
        assert(sorted.contains(sorted[k]));
        assert(all.to_multiset().count(sorted[k]) > 0);
        let w = choose|w: int| 0 <= w < all.len() && all[w] == sorted[k];
    }
}

/// Appends one line per scalar of `value`, with its path.
pub fn flatten_json(
    prefix: &str,
    value: &Json,
    depth: usize,
    max_depth: usize,
    out: &mut Vec<String>,
)
    requires
        max_depth < usize::MAX - 2,
    ensures
        text::texts(final(out)@) == text::texts(old(out)@) + flat(
            prefix@,
            *value,
            depth as nat,
            max_depth as nat,
        ),
    decreases max_depth + 2 - depth,
{
    let ghost start = text::texts(out@);
    if depth > max_depth {
        push_text(out, cat(label(prefix), ": <max depth reached>"));
        assert(text::texts(out@) =~= start + flat(prefix@, *value, depth as nat, max_depth as nat));
        return;
    }
    match value {
        Json::Object(e) => {
            let keys: Vec<KeyRank> = sorted_keys(e);
            let n: usize = e.len();
            let ghost order = sort::views(keys@);
            proof {
                lemma_key_order(e@);
            }
            assert(order.take(0) =~= Seq::<KeyAt>::empty());
            assert(start + Seq::<Seq<char>>::empty() =~= start);
            let mut i: usize = 0;
            while i < keys.len()
                invariant
                    i <= keys@.len(),
                    depth <= max_depth < usize::MAX - 2,
                    order == sort::views(keys@),
                    forall|k: int| 0 <= k < order.len() ==> (#[trigger] order[k]).idx < e@.len(),
                    text::texts(out@) == start + flat_fields(
                        prefix@,
                        e@,
                        order.take(i as int),
                        (depth + 1) as nat,
                        max_depth as nat,
                    ),
                decreases keys@.len() - i,
            {
                let ghost before = text::texts(out@);
                assert(order.take(i + 1).drop_last() =~= order.take(i as int));
                assert(order.take(i + 1).last() == keys@[i as int]@);
                assert(order[i as int].idx < e@.len());
                let child: String = if prefix.is_empty() {
                    keys[i].key.to_owned()
                } else {
                    cat3(prefix, ".", keys[i].key)
                };
                flatten_json(child.as_str(), &e[keys[i].idx].1, depth + 1, max_depth, out);
                proof {
                    let done = flat_fields(
                        prefix@,
                        e@,
                        order.take(i as int),
                        (depth + 1) as nat,
                        max_depth as nat,
                    );
                    let more = flat(
                        child@,
                        e@[keys@[i as int].idx as int].1,
                        (depth + 1) as nat,
                        max_depth as nat,
                    );
                    assert(start + done + more =~= start + (done + more));
                }
                i += 1;
            }
            assert(order.take(i as int) =~= order);
        },
        Json::Array(a) => {
            assert(a@.take(0) =~= Seq::<Json>::empty());
            assert(start + Seq::<Seq<char>>::empty() =~= start);
            let mut i: usize = 0;
            while i < a.len()
                invariant
                    i <= a@.len(),
                    depth <= max_depth < usize::MAX - 2,
                    text::texts(out@) == start + flat_items(
                        prefix@,
                        a@.take(i as int),
                        (depth + 1) as nat,
                        max_depth as nat,
                    ),
                decreases a@.len() - i,
            {
                assert(a@.take(i + 1).drop_last() =~= a@.take(i as int));
                assert(a@.take(i + 1).last() == a@[i as int]);
                let n: String = usize_text(i);
                let mut child: String = if prefix.is_empty() {
                    "items[".to_owned()
                } else {
                    cat(prefix, "[")
                };
                child.append(n.as_str());
                child.append("]");
                flatten_json(child.as_str(), &a[i], depth + 1, max_depth, out);
                proof {
                    let done = flat_items(
                        prefix@,
                        a@.take(i as int),
                        (depth + 1) as nat,
                        max_depth as nat,
                    );
                    let more = flat(
                        child@,
                        a@[i as int],
                        (depth + 1) as nat,
                        max_depth as nat,
                    );
                    assert(start + done + more =~= start + (done + more));
                }
                i += 1;
            }
            assert(a@.take(i as int) =~= a@);
        },
        _ => {
            let text: String = scalar_to_string(value);
            push_text(out, cat3(label(prefix), ": ", text.as_str()));
            assert(text::texts(out@) =~= start + flat(prefix@, *value, depth as nat, max_depth as nat));
        },
    }
}

/// Levels of nesting that are flattened.
pub const FLATTEN_DEPTH: usize = 5;

/// The flattened lines of a value; `(empty)` where it has no scalars.
pub open spec fn humanized(v: Json) -> Seq<Seq<char>> {
    let lines = flat(seq![], v, 0, FLATTEN_DEPTH as nat);
    if lines.len() == 0 {
        seq!["(empty)"@]
    } else {
        lines
    }
}

/// The flattened lines of a value.
pub fn humanize_value(value: &Json) -> (r: Vec<String>)
    ensures
        text::texts(r@) == humanized(*value),
{
    let mut out: Vec<String> = Vec::new();
    assert(text::texts(out@) =~= Seq::<Seq<char>>::empty());
    proof {
        reveal_strlit("");
        assert(""@ =~= Seq::<char>::empty());
    }
    flatten_json("", value, 0, FLATTEN_DEPTH, &mut out);
    assert(text::texts(out@) =~= flat(seq![], *value, 0, FLATTEN_DEPTH as nat));
    assert(text::texts(out@).len() == out@.len());
    if out.len() == 0 {
        push_text(&mut out, "(empty)".to_owned());
        assert(text::texts(out@) =~= seq!["(empty)"@]);
    }
    out
}

/// The flattened lines of a JSON text; nothing where it is none.
pub open spec fn humanized_text(raw: Seq<char>) -> Option<Seq<Seq<char>>> {
    let t = text::trimmed(raw);
    if t.len() == 0 {
        None
    } else {
        match json::json_value(t) {
            Some(v) => Some(humanized(v)),
            None => None,
        }
    }
}

/// The flattened lines of a JSON text; nothing where it is none.
pub fn humanize_json_lines(raw: &str) -> (r: Option<Vec<String>>)
    ensures
        text::opt_texts(r) == humanized_text(raw@),
{
    let t: String = trim(raw);
    if t.as_str().is_empty() {
        return None;
    }
    match parse_json(t.as_str()) {
        Some(v) => Some(humanize_value(&v)),
        None => None,
    }
}

/// A JSON text pretty-printed; nothing where it is none.
pub open spec fn prettied_text(raw: Seq<char>) -> Option<Seq<char>> {
    let t = text::trimmed(raw);
    if t.len() == 0 {
        None
    } else {
        json::prettied(t)
    }
}

/// A JSON text pretty-printed; nothing where it is none.
pub fn maybe_pretty_json(raw: &str) -> (r: Option<String>)
    ensures
        text::opt_text(r) == prettied_text(raw@),
{
    let t: String = trim(raw);
    if t.as_str().is_empty() {
        return None;
    }
    pretty_json(t.as_str())
}

// ── Payloads and log lines ───────────────────────────────────────────────────

/// The lines of a rendered payload: `(empty)` where there are none, and cut to
/// `max` lines, the last of them a mark when something was cut.
pub open spec fn clamped(lines: Seq<Seq<char>>, max: nat) -> Seq<Seq<char>> {
    if max == 0 {
        seq![]
    } else if lines.len() == 0 {
        seq!["(empty)"@]
    } else if lines.len() > max {
        lines.take(max - 1).push("... (truncated)"@)
    } else {
        lines
    }
}

/// The lines of a rendered payload, at most `max_lines` of them.
pub fn clamp_lines(rendered: &str, max_lines: usize) -> (r: Vec<String>)
    ensures
        text::texts(r@) == clamped(text::lines_of(rendered@), max_lines as nat),
{
    let mut lines: Vec<String> = split_lines(rendered);
    assert(text::texts(lines@).len() == lines@.len());
    if max_lines == 0 {
        let none: Vec<String> = Vec::new();
        assert(text::texts(none@) =~= Seq::<Seq<char>>::empty());
        return none;
    }
    if lines.len() == 0 {
        return one_line("(empty)");
    }
    if lines.len() > max_lines {
        let ghost all = text::texts(lines@);
        lines.truncate(max_lines - 1);
        assert(text::texts(lines@) =~= all.take(max_lines - 1));
        push_text(&mut lines, "... (truncated)".to_owned());
    }
    lines
}

/// A payload never takes more than the lines it is given.
pub proof fn law_payload_clamped(lines: Seq<Seq<char>>, max: nat)
    ensures
        clamped(lines, max).len() <= max,
{
}

/// A payload as it is shown, before it is cut.
pub open spec fn payload_text(raw: Seq<char>, mode: JsonViewMode) -> Seq<char> {
    let t = text::replaced(raw, "\r\n"@, "\n"@);
    match mode {
        JsonViewMode::Humanized => match humanized_text(t) {
            Some(lines) => text::joined(lines, "\n"@),
            None => t,
        },
        JsonViewMode::RawPretty => match prettied_text(t) {
            Some(p) => p,
            None => t,
        },
    }
}

/// A payload as display lines: JSON flattened or pretty-printed, anything else
/// as it stands; at most `max_lines` of them.
pub fn format_payload_lines(raw: &str, mode: JsonViewMode, max_lines: usize) -> (r: Vec<String>)
    ensures
        text::texts(r@) == clamped(text::lines_of(payload_text(raw@, mode)), max_lines as nat),
{
    proof {
        reveal_strlit("\r\n");
    }
    let t: String = replace(raw, "\r\n", "\n");
    let rendered: String = match mode {
        JsonViewMode::Humanized => match humanize_json_lines(t.as_str()) {
            Some(lines) => join(&lines, "\n"),
            None => t,
        },
        JsonViewMode::RawPretty => match maybe_pretty_json(t.as_str()) {
            Some(p) => p,
            None => t,
        },
    };
    clamp_lines(rendered.as_str(), max_lines)
}

/// The display lines of a log line.
pub open spec fn log_lines(line: Seq<char>, mode: JsonViewMode) -> Seq<Seq<char>> {
    match mode {
        JsonViewMode::Humanized => match humanized_text(line) {
            Some(lines) => lines,
            None => seq![line],
        },
        JsonViewMode::RawPretty => match prettied_text(line) {
            Some(p) => text::lines_of(p),
            None => seq![line],
        },
    }
}

/// The display lines of a log line.
pub fn format_log_line(line: &str, mode: JsonViewMode) -> (r: Vec<String>)
    ensures
        text::texts(r@) == log_lines(line@, mode),
{
    match mode {
        JsonViewMode::Humanized => match humanize_json_lines(line) {
            Some(lines) => lines,
            None => one_line(line),
        },
        JsonViewMode::RawPretty => match maybe_pretty_json(line) {
            Some(p) => split_lines(p.as_str()),
            None => one_line(line),
        },
    }
}

// ── Narrative ────────────────────────────────────────────────────────────────

/// The lines of the text blocks of a message that are not blank.
pub open spec fn block_lines(content: Seq<Json>) -> Seq<Seq<char>>
    decreases content.len(),
{
    if content.len() == 0 {
        seq![]
    } else {
        let rest = block_lines(content.drop_last());
        let item = content.last();
        if Json::text_of(item.at("type"@)) == Some("text"@) {
            match Json::text_of(item.at("text"@)) {
                Some(t) if text::trimmed(t).len() > 0 => rest + text::lines_of(t),
                _ => rest,
            }
        } else {
            rest
        }
    }
}

/// The value under `a` and then `b`.
pub open spec fn nested(v: Json, a: Seq<char>, b: Seq<char>) -> Option<Json> {
    match v.at(a) {
        Some(w) => w.at(b),
        None => None,
    }
}

/// What an event of an agent's log tells: the text of assistant messages,
/// results and streamed parts; nothing for protocol events, tool calls, blank
/// text and unknown events.
pub open spec fn narrative(v: Json) -> Option<Seq<Seq<char>>> {
    let kind = match Json::text_of(v.at("type"@)) {
        Some(t) => t,
        None => ""@,
    };
    if kind == "system"@ || kind == "rate_limit_event"@ || kind == "user"@ {
        None
    } else if kind == "assistant"@ {
        match nested(v, "message"@, "content"@) {
            Some(Json::Array(content)) => {
                let lines = block_lines(content@);
                if lines.len() == 0 {
                    None
                } else {
                    Some(lines)
                }
            },
            _ => None,
        }
    } else if kind == "result"@ {
        match Json::text_of(v.at("result"@)) {
            Some(t) if text::trimmed(t).len() > 0 => Some(text::lines_of(t)),
            _ => None,
        }
    } else if kind == "content.delta"@ {
        match Json::text_of(nested(v, "part"@, "text"@)) {
            Some(t) if t.len() > 0 => Some(seq![t]),
            _ => None,
        }
    } else if kind == "item.completed"@ {
        match Json::text_of(nested(v, "item"@, "text"@)) {
            Some(t) if t.len() > 0 => Some(text::lines_of(t)),
            _ => None,
        }
    } else {
        None
    }
}

fn text_blocks(content: &Vec<Json>) -> (r: Vec<String>)
    ensures
        text::texts(r@) == block_lines(content@),
{
    let mut out: Vec<String> = Vec::new();
    let mut i: usize = 0;
    assert(text::texts(out@) =~= block_lines(content@.take(0)));
    while i < content.len()
        invariant
            i <= content@.len(),
            text::texts(out@) == block_lines(content@.take(i as int)),
        decreases content@.len() - i,
    {
        assert(content@.take(i + 1).drop_last() =~= content@.take(i as int));
        assert(content@.take(i + 1).last() == content@[i as int]);
        let ghost before = text::texts(out@);
        let item: &Json = &content[i];
        let is_text: bool = match item.get_str("type") {
            Some(k) => str_eq(k, "text"),
            None => false,
        };
        if is_text {
            if let Some(t) = item.get_str("text") {
                let bare: String = trim(t);
                if !bare.as_str().is_empty() {
                    let mut lines: Vec<String> = split_lines(t);
                    let ghost more = text::texts(lines@);
                    out.append(&mut lines);
                    assert(text::texts(out@) =~= before + more);
                }
            }
        }
        i += 1;
    }
    assert(content@.take(i as int) =~= content@);
    out
}

fn nested_str<'a>(v: &'a Json, a: &str, b: &str) -> (r: Option<&'a str>)
    ensures
        match r {
            Some(s) => Json::text_of(nested(*v, a@, b@)) == Some(s@),
            None => Json::text_of(nested(*v, a@, b@)) is None,
        },
{
    match v.get(a) {
        Some(w) => w.get_str(b),
        None => None,
    }
}

/// What an event of an agent's log tells.
pub fn narrative_of(value: &Json) -> (r: Option<Vec<String>>)
    ensures
        text::opt_texts(r) == narrative(*value),
{
    let kind: &str = match value.get_str("type") {
        Some(t) => t,
        None => "",
    };
    if str_eq(kind, "system") || str_eq(kind, "rate_limit_event") || str_eq(kind, "user") {
        return None;
    }
    if str_eq(kind, "assistant") {
        let content: Option<&Json> = match value.get("message") {
            Some(m) => m.get("content"),
            None => None,
        };
        if let Some(Json::Array(blocks)) = content {
            let lines: Vec<String> = text_blocks(blocks);
            assert(text::texts(lines@).len() == lines@.len());
            if lines.len() == 0 {
                None
            } else {
                Some(lines)
            }
        } else {
            None
        }
    } else if str_eq(kind, "result") {
        match value.get_str("result") {
            Some(t) => {
                let bare: String = trim(t);
                if bare.as_str().is_empty() {
                    None
                } else {
                    Some(split_lines(t))
                }
            },
            None => None,
        }
    } else if str_eq(kind, "content.delta") {
        match nested_str(value, "part", "text") {
            Some(t) => if t.is_empty() {
                None
            } else {
                Some(one_line(t))
            },
            None => None,
        }
    } else if str_eq(kind, "item.completed") {
        match nested_str(value, "item", "text") {
            Some(t) => if t.is_empty() {
                None
            } else {
                Some(split_lines(t))
            },
            None => None,
        }
    } else {
        None
    }
}

/// What a log line tells. Error output and lines that are no JSON stand as they
/// are, without the white space around them.
pub open spec fn log_narrative(line: Seq<char>) -> Option<Seq<Seq<char>>> {
    let t = text::trimmed(line);
    if t.len() == 0 {
        None
    } else if text::occurs_at(t, "[stderr]"@, 0) {
        Some(seq![t])
    } else {
        match json::json_value(t) {
            Some(v) => narrative(v),
            None => Some(seq![t]),
        }
    }
}

/// What a log line tells; nothing for a line to be skipped.
pub fn extract_content_from_log_line(line: &str) -> (r: Option<Vec<String>>)
    ensures
        text::opt_texts(r) == log_narrative(line@),
{
    let t: String = trim(line);
    if t.as_str().is_empty() {
        return None;
    }
    if starts_with(t.as_str(), "[stderr]") {
        return Some(one_line(t.as_str()));
    }
    match parse_json(t.as_str()) {
        Some(v) => narrative_of(&v),
        None => Some(one_line(t.as_str())),
    }
}

// ── Laws ─────────────────────────────────────────────────────────────────────

/// A value inside another is named by the way to it: fields by a point and their
/// name, items by their number in brackets.
pub proof fn law_paths_name_the_way(prefix: Seq<char>, key: Seq<char>, i: nat)
    ensures
        prefix.len() > 0 ==> field_path(prefix, key) == prefix + "."@ + key,
        field_path(Seq::empty(), key) == key,
        prefix.len() > 0 ==> item_path(prefix, i) == prefix + "["@ + text::dec(i) + "]"@,
        item_path(Seq::empty(), i) == "items["@ + text::dec(i) + "]"@,
        path_label(Seq::empty()) == "value"@,
        prefix.len() > 0 ==> path_label(prefix) == prefix,
{
}

/// What is told of a value: a plain value by its text on one line, and none of
/// what lies deeper than it may.
pub proof fn law_plain_values_are_told(
    prefix: Seq<char>,
    s: String,
    n: String,
    b: bool,
    depth: nat,
    max: nat,
)
    requires
        depth <= max,
        prefix.len() > 0,
    ensures
        flat(prefix, Json::Str(s), depth, max) == seq![prefix + ": "@ + s@],
        flat(prefix, Json::Number(n), depth, max) == seq![prefix + ": "@ + n@],
        flat(prefix, Json::Bool(true), depth, max) == seq![prefix + ": "@ + "true"@],
        flat(prefix, Json::Bool(false), depth, max) == seq![prefix + ": "@ + "false"@],
        flat(prefix, Json::Null, depth, max) == seq![prefix + ": "@ + "null"@],
        flat(prefix, Json::Bool(b), max + 1, max) == seq![prefix + ": <max depth reached>"@],
{
}

/// The items of an array are told one after the other, each by its number; the
/// fields of an object by their names in order.
pub proof fn law_inner_values_are_told(
    prefix: Seq<char>,
    a: Seq<Json>,
    v: Json,
    e: Seq<(String, Json)>,
    order: Seq<KeyAt>,
    k: KeyAt,
    depth: nat,
    max: nat,
)
    requires
        depth <= max + 1,
    ensures
        flat_items(prefix, a.push(v), depth, max) == flat_items(prefix, a, depth, max) + flat(
            item_path(prefix, a.len()),
            v,
            depth,
            max,
        ),
        flat_fields(prefix, e, order.push(k), depth, max) == flat_fields(
            prefix,
            e,
            order,
            depth,
            max,
        ) + flat(field_path(prefix, k.key), e[k.idx as int].1, depth, max),
        flat_items(prefix, Seq::empty(), depth, max).len() == 0,
        flat_fields(prefix, e, Seq::empty(), depth, max).len() == 0,
{
    assert(a.push(v).drop_last() =~= a);
    assert(order.push(k).drop_last() =~= order);
}

/// The fields of an object are told in the order of their names, each of them
/// once and with its own value.
pub proof fn law_fields_by_name(e: Seq<(String, Json)>, a: int, b: int)
    requires
        e.len() <= usize::MAX,
        0 <= a < b < key_order(e).len(),
    ensures
        key_order(e).len() == e.len(),
        !text::text_less(key_order(e)[b].key, key_order(e)[a].key),
        key_order(e)[a].idx < e.len() && key_order(e)[a].key == e[key_order(e)[a].idx as int].0@,
{
    lemma_key_order(e);
    let s = Seq::new(e.len(), |i: int| KeyAt { key: e[i].0@, idx: i as usize });
    sort::lemma_stable_sorted(s);
    assert(!key_order(e)[b].before(key_order(e)[a]));
}

/// What may not be longer than so many lines ends in a note that it was cut.
pub proof fn law_cut_payloads_say_so(lines: Seq<Seq<char>>, max: nat)
    requires
        max > 0,
    ensures
        0 < lines.len() <= max ==> clamped(lines, max) == lines,
        lines.len() == 0 ==> clamped(lines, max) == seq!["(empty)"@],
        lines.len() > max ==> {
            &&& clamped(lines, max).len() == max
            &&& clamped(lines, max).last() == "... (truncated)"@
            &&& clamped(lines, max).drop_last() == lines.take(max - 1)
        },
        clamped(lines, 0).len() == 0,
{
    if lines.len() > max {
        assert(clamped(lines, max).drop_last() =~= lines.take(max - 1));
    }
}

/// What is shown of a text that is no value: the text itself, in either mode. A
/// value is shown field by field, or indented.
pub proof fn law_texts_that_are_no_values(line: Seq<char>)
    ensures
        text::trimmed(line).len() == 0 ==> humanized_text(line) is None && prettied_text(
            line,
        ) is None,
        text::trimmed(line).len() > 0 ==> (json::json_value(text::trimmed(line)) matches Some(v)
            ==> humanized_text(line) == Some(humanized(v))),
        json::json_value(text::trimmed(line)) is None ==> humanized_text(line) is None,
        text::trimmed(line).len() > 0 ==> prettied_text(line) == json::prettied(
            text::trimmed(line),
        ),
        humanized_text(line) is None ==> log_lines(line, JsonViewMode::Humanized) == seq![line],
        humanized_text(line) matches Some(l) ==> log_lines(line, JsonViewMode::Humanized) == l,
        prettied_text(line) is None ==> log_lines(line, JsonViewMode::RawPretty) == seq![line],
        prettied_text(line) matches Some(p) ==> log_lines(line, JsonViewMode::RawPretty)
            == text::lines_of(p),
        !text::contains_text(line, "\r\n"@) && humanized_text(line) is None ==> payload_text(
            line,
            JsonViewMode::Humanized,
        ) == line,
        !text::contains_text(line, "\r\n"@) && prettied_text(line) is None ==> payload_text(
            line,
            JsonViewMode::RawPretty,
        ) == line,
        !text::contains_text(line, "\r\n"@) ==> (prettied_text(line) matches Some(p)
            ==> payload_text(line, JsonViewMode::RawPretty) == p),
        !text::contains_text(line, "\r\n"@) ==> (humanized_text(line) matches Some(l)
            ==> payload_text(line, JsonViewMode::Humanized) == text::joined(l, "\n"@)),
{
    reveal_strlit("\r\n");
    if !text::contains_text(line, "\r\n"@) {
        text::law_nothing_to_replace(line, "\r\n"@, "\n"@);
    }
}

/// Of a message the blocks of text are told, in order; blocks of another kind and
/// blank ones are not.
pub proof fn law_text_blocks_are_told(content: Seq<Json>, item: Json, t: Seq<char>)
    ensures
        Json::text_of(item.at("type"@)) == Some("text"@) && Json::text_of(item.at("text"@)) == Some(
            t,
        ) && text::trimmed(t).len() > 0 ==> block_lines(content.push(item)) == block_lines(content)
            + text::lines_of(t),
        Json::text_of(item.at("type"@)) != Some("text"@) ==> block_lines(content.push(item))
            == block_lines(content),
        Json::text_of(item.at("text"@)) == Some(t) && text::trimmed(t).len() == 0 ==> block_lines(
            content.push(item),
        ) == block_lines(content),
        block_lines(Seq::empty()).len() == 0,
{
    assert(content.push(item).drop_last() =~= content);
}

/// What is told of a record of the log, by its kind: of what the agent says, of
/// its result and of the parts of its output the text; of the rest nothing.
pub proof fn law_records_by_kind(v: Json, t: Seq<char>)
    ensures
        Json::text_of(v.at("type"@)) == Some("system"@) || Json::text_of(v.at("type"@)) == Some(
            "user"@,
        ) || Json::text_of(v.at("type"@)) == Some("rate_limit_event"@) || Json::text_of(
            v.at("type"@),
        ) is None ==> narrative(v) is None,
        Json::text_of(v.at("type"@)) == Some("result"@) && Json::text_of(v.at("result"@)) == Some(t)
            && text::trimmed(t).len() > 0 ==> narrative(v) == Some(text::lines_of(t)),
        Json::text_of(v.at("type"@)) == Some("content.delta"@) && Json::text_of(
            nested(v, "part"@, "text"@),
        ) == Some(t) && t.len() > 0 ==> narrative(v) == Some(seq![t]),
        Json::text_of(v.at("type"@)) == Some("item.completed"@) && Json::text_of(
            nested(v, "item"@, "text"@),
        ) == Some(t) && t.len() > 0 ==> narrative(v) == Some(text::lines_of(t)),
        Json::text_of(v.at("type"@)) == Some("assistant"@) ==> (nested(
            v,
            "message"@,
            "content"@,
        ) matches Some(Json::Array(c)) ==> if block_lines(c@).len() > 0 {
            narrative(v) == Some(block_lines(c@))
        } else {
            narrative(v) is None
        }),
{
    reveal_strlit("");
    reveal_strlit("system");
    reveal_strlit("rate_limit_event");
    reveal_strlit("user");
    reveal_strlit("assistant");
    reveal_strlit("result");
    reveal_strlit("content.delta");
    reveal_strlit("item.completed");
    assert(""@.len() == 0 && "user"@.len() == 4 && "rate_limit_event"@.len() == 16);
    assert("system"@.len() == 6 && "result"@.len() == 6 && "assistant"@.len() == 9);
    assert("content.delta"@.len() == 13 && "item.completed"@.len() == 14);
    assert("system"@[0] == 's' && "result"@[0] == 'r');
    assert("content.delta"@[0] == 'c' && "item.completed"@[0] == 'i');
}

/// What is told of a line of the log: of a record what its kind calls for, of any
/// other line and of what went to the error stream the line itself.
pub proof fn law_log_lines_are_told(line: Seq<char>)
    ensures
        text::trimmed(line).len() == 0 ==> log_narrative(line) is None,
        text::trimmed(line).len() > 0 && text::occurs_at(text::trimmed(line), "[stderr]"@, 0)
            ==> log_narrative(line) == Some(seq![text::trimmed(line)]),
        text::trimmed(line).len() > 0 && json::json_value(text::trimmed(line)) is None
            ==> log_narrative(line) == Some(seq![text::trimmed(line)]),
        text::trimmed(line).len() > 0 && !text::occurs_at(text::trimmed(line), "[stderr]"@, 0) ==> (
        json::json_value(text::trimmed(line)) matches Some(v) ==> log_narrative(line) == narrative(
            v,
        )),
{
}

} // verus!
