//! Reading the streamed answer of the chat completion API: the data lines of
//! each chunk, the text they carry, and the tool calls that their deltas
//! assemble piece by piece.
use vstd::prelude::*;
use crate::json::{Json, JsonV, owned};
use crate::models::{OutputEvent, OutputEventV, outputs_view};
use crate::text::{chars_of, lines, lines_of, lossy_utf8, utf8_lossy, views};

verus! {

/// The prefix of a line that carries data.
pub open spec fn data_prefix() -> Seq<char> {
    seq!['d', 'a', 't', 'a', ':', ' ']
}

/// The data that ends the stream.
pub open spec fn done_marker() -> Seq<char> {
    seq!['[', 'D', 'O', 'N', 'E', ']']
}

/// The data of the lines that start with "data: ", up to the first whose data is "[DONE]".
pub open spec fn payloads_of(ls: Seq<Seq<char>>) -> Seq<Seq<char>>
    decreases ls.len(),
{
    if ls.len() == 0 {
        Seq::empty()
    } else if data_prefix().is_prefix_of(ls[0]) {
        let d = ls[0].subrange(6, ls[0].len() as int);
        if d == done_marker() {
            Seq::empty()
        } else {
            seq![d] + payloads_of(ls.subrange(1, ls.len() as int))
        }
    } else {
        payloads_of(ls.subrange(1, ls.len() as int))
    }
}

/// The data that a chunk of the stream carries.
pub open spec fn chunk_payloads_spec(bytes: Seq<u8>) -> Seq<Seq<char>> {
    payloads_of(lines(lossy_utf8(bytes)))
}

fn starts_with_data(cs: &Vec<char>) -> (r: bool)
    ensures
        r == data_prefix().is_prefix_of(cs@),
{
    let r = cs.len() >= 6 && cs[0] == 'd' && cs[1] == 'a' && cs[2] == 't' && cs[3] == 'a' && cs[4]
        == ':' && cs[5] == ' ';
    proof {
        if r {
            assert(cs@.subrange(0, 6) =~= data_prefix());
        } else if cs@.len() >= 6 {
            assert(cs@.subrange(0, 6)[0] == cs@[0]);
            assert(cs@.subrange(0, 6)[1] == cs@[1]);
            assert(cs@.subrange(0, 6)[2] == cs@[2]);
            assert(cs@.subrange(0, 6)[3] == cs@[3]);
            assert(cs@.subrange(0, 6)[4] == cs@[4]);
            assert(cs@.subrange(0, 6)[5] == cs@[5]);
        }
    }
    r
}

fn is_done(cs: &Vec<char>) -> (r: bool)
    requires
        cs@.len() >= 6,
    ensures
        r == (cs@.subrange(6, cs@.len() as int) == done_marker()),
{
    let r = cs.len() == 12 && cs[6] == '[' && cs[7] == 'D' && cs[8] == 'O' && cs[9] == 'N' && cs[10]
        == 'E' && cs[11] == ']';
    proof {
        let d = cs@.subrange(6, cs@.len() as int);
        if r {
            assert(d =~= done_marker());
        } else if d.len() == 6 {
            assert(d[0] == cs@[6]);
            assert(d[1] == cs@[7]);
            assert(d[2] == cs@[8]);
            assert(d[3] == cs@[9]);
            assert(d[4] == cs@[10]);
            assert(d[5] == cs@[11]);
        }
    }
    r
}

/// The data that a chunk of the stream carries: the chunk is decoded as
/// UTF-8 (lossily) and split into lines; each line that starts with "data: "
/// gives what follows that prefix, until a line whose data is "[DONE]".
pub fn chunk_payloads(bytes: &[u8]) -> (r: Vec<String>)
    ensures
        views(r@) == chunk_payloads_spec(bytes@),
{
    let text = utf8_lossy(bytes);
    let ls = lines_of(text.as_str());
    let mut out: Vec<String> = Vec::new();
    let mut i: usize = 0;
    proof {
        assert(views(ls@).subrange(0, ls@.len() as int) =~= views(ls@));
        assert(views(out@) =~= Seq::<Seq<char>>::empty());
        assert(views(out@) + payloads_of(views(ls@)) =~= payloads_of(views(ls@)));
    }
    while i < ls.len()
        invariant
            i <= ls@.len(),
            views(ls@) == lines(lossy_utf8(bytes@)),
            chunk_payloads_spec(bytes@) == views(out@) + payloads_of(
                views(ls@).subrange(i as int, ls@.len() as int),
            ),
        decreases ls@.len() - i,
    {
        let ghost rest = views(ls@).subrange(i as int, ls@.len() as int);
        proof {
            assert(rest[0] == ls@[i as int]@);
            assert(rest.subrange(1, rest.len() as int) =~= views(ls@).subrange(
                i + 1,
                ls@.len() as int,
            ));
        }
        let cs = chars_of(ls[i].as_str());
        if starts_with_data(&cs) {
            if is_done(&cs) {
                proof {
                    assert(views(out@) + Seq::<Seq<char>>::empty() =~= views(out@));
                }
                return out;
            }
            let d = String::from_str(ls[i].as_str().substring_char(6, cs.len()));
            let ghost before = out@;
            out.push(d);
            proof {
                assert(views(out@) =~= views(before).push(d@));
                assert(views(before) + (seq![d@] + payloads_of(
                    views(ls@).subrange(i + 1, ls@.len() as int),
                )) =~= views(out@) + payloads_of(views(ls@).subrange(i + 1, ls@.len() as int)));
            }
        }
        i = i + 1;
    }
    proof {
        assert(views(out@) + Seq::<Seq<char>>::empty() =~= views(out@));
    }
    out
}

/// A tool call as its deltas have assembled it so far.
#[derive(Debug, PartialEq)]
pub struct ToolCallAccum {
    pub id: Option<String>,
    pub name: String,
    pub arguments: String,
}

pub struct AccumV {
    pub id: Option<Seq<char>>,
    pub name: Seq<char>,
    pub arguments: Seq<char>,
}

impl View for ToolCallAccum {
    type V = AccumV;

    open spec fn view(&self) -> AccumV {
        AccumV {
            id: match self.id {
                Some(s) => Some(s@),
                None => None,
            },
            name: self.name@,
            arguments: self.arguments@,
        }
    }
}

pub open spec fn empty_accum() -> AccumV {
    AccumV { id: None, name: Seq::empty(), arguments: Seq::empty() }
}

pub open spec fn accums_view(s: Seq<ToolCallAccum>) -> Seq<AccumV> {
    Seq::new(s.len(), |i: int| s[i]@)
}

/// The position of the tool call that a delta continues (0 where it names none).
pub open spec fn delta_index(tc: JsonV) -> nat {
    match tc.field("index"@).u64_value() {
        Some(i) => i as nat,
        None => 0,
    }
}

/// Applies one tool call delta: a position one past the end starts a new
/// call; the delta's id replaces the call's id, and its function name and
/// arguments are appended to the call's; the arguments are also reported.
pub open spec fn apply_delta(acc: Seq<AccumV>, tc: JsonV) -> (Seq<AccumV>, Seq<OutputEventV>) {
    let i = delta_index(tc);
    let acc1 = if i >= acc.len() {
        acc.push(empty_accum())
    } else {
        acc
    };
    let a = acc1[i as int];
    let id = match tc.field("id"@).str_value() {
        Some(s) => Some(s),
        None => a.id,
    };
    let name = match tc.field("function"@).field("name"@).str_value() {
        Some(s) => a.name + s,
        None => a.name,
    };
    match tc.field("function"@).field("arguments"@).str_value() {
        Some(s) => (
            acc1.update(i as int, AccumV { id, name, arguments: a.arguments + s }),
            seq![OutputEventV::OutputToolCallDelta(s)],
        ),
        None => (acc1.update(i as int, AccumV { id, name, arguments: a.arguments }), Seq::empty()),
    }
}

/// Applies the deltas in order.
pub open spec fn apply_deltas(acc: Seq<AccumV>, tcs: Seq<JsonV>) -> (Seq<AccumV>, Seq<OutputEventV>)
    decreases tcs.len(),
{
    if tcs.len() == 0 {
        (acc, Seq::empty())
    } else {
        let (a1, o1) = apply_delta(acc, tcs[0]);
        let (a2, o2) = apply_deltas(a1, tcs.subrange(1, tcs.len() as int));
        (a2, o1 + o2)
    }
}

/// The number of calls after a delta.
pub open spec fn next_len(len: nat, tc: JsonV) -> nat {
    if delta_index(tc) >= len {
        len + 1
    } else {
        len
    }
}

/// Each delta, when its turn comes, names a call that exists or the one just
/// past the end, where `len` calls exist at the start.
pub open spec fn deltas_fit(len: nat, tcs: Seq<JsonV>) -> bool
    decreases tcs.len(),
{
    tcs.len() == 0 || (delta_index(tcs[0]) <= len && deltas_fit(
        next_len(len, tcs[0]),
        tcs.subrange(1, tcs.len() as int),
    ))
}

/// The number of calls after the deltas.
pub open spec fn deltas_len(len: nat, tcs: Seq<JsonV>) -> nat
    decreases tcs.len(),
{
    if tcs.len() == 0 {
        len
    } else {
        deltas_len(next_len(len, tcs[0]), tcs.subrange(1, tcs.len() as int))
    }
}

/// The delta of the first choice of a payload.
pub open spec fn payload_delta(p: JsonV) -> JsonV {
    p.field("choices"@).item(0).field("delta"@)
}

pub open spec fn opt_str_of(o: Option<JsonV>) -> Option<Seq<char>> {
    match o {
        Some(v) => v.str_value(),
        None => None,
    }
}

pub open spec fn opt_array_of(o: Option<JsonV>) -> Option<Seq<JsonV>> {
    match o {
        Some(v) => v.array_value(),
        None => None,
    }
}

/// Applies one parsed payload (`None` where it is no JSON): where its delta is
/// an object, its text content is reported and added to the content, and its
/// tool call deltas are applied.
pub open spec fn apply_payload(content: Seq<char>, acc: Seq<AccumV>, p: Option<JsonV>) -> (
    Seq<char>,
    Seq<AccumV>,
    Seq<OutputEventV>,
) {
    match p {
        None => (content, acc, Seq::empty()),
        Some(v) => {
            let d = payload_delta(v);
            if !d.is_object() {
                (content, acc, Seq::empty())
            } else {
                let (c1, o1) = match opt_str_of(d.lookup("content"@)) {
                    Some(c) => (content + c, seq![OutputEventV::OutputText(c)]),
                    None => (content, Seq::empty()),
                };
                match opt_array_of(d.lookup("tool_calls"@)) {
                    Some(tcs) => {
                        let (a2, o2) = apply_deltas(acc, tcs);
                        (c1, a2, o1 + o2)
                    },
                    None => (c1, acc, o1),
                }
            }
        },
    }
}

/// The tool call deltas of a payload, where it has any.
pub open spec fn payload_deltas(p: Option<JsonV>) -> Option<Seq<JsonV>> {
    match p {
        None => None,
        Some(v) => {
            let d = payload_delta(v);
            if d.is_object() {
                opt_array_of(d.lookup("tool_calls"@))
            } else {
                None
            }
        },
    }
}

pub open spec fn payload_fits(len: nat, p: Option<JsonV>) -> bool {
    match payload_deltas(p) {
        Some(tcs) => deltas_fit(len, tcs),
        None => true,
    }
}

pub open spec fn payload_len(len: nat, p: Option<JsonV>) -> nat {
    match payload_deltas(p) {
        Some(tcs) => deltas_len(len, tcs),
        None => len,
    }
}

pub open spec fn apply_payloads(content: Seq<char>, acc: Seq<AccumV>, ps: Seq<Option<JsonV>>) -> (
    Seq<char>,
    Seq<AccumV>,
    Seq<OutputEventV>,
)
    decreases ps.len(),
{
    if ps.len() == 0 {
        (content, acc, Seq::empty())
    } else {
        let (c1, a1, o1) = apply_payload(content, acc, ps[0]);
        let (c2, a2, o2) = apply_payloads(c1, a1, ps.subrange(1, ps.len() as int));
        (c2, a2, o1 + o2)
    }
}

/// Every delta of every payload fits, where `len` calls exist at the start.
pub open spec fn payloads_fit(len: nat, ps: Seq<Option<JsonV>>) -> bool
    decreases ps.len(),
{
    ps.len() == 0 || (payload_fits(len, ps[0]) && payloads_fit(
        payload_len(len, ps[0]),
        ps.subrange(1, ps.len() as int),
    ))
}

pub open spec fn parsed_view(ps: Seq<Option<Json>>) -> Seq<Option<JsonV>> {
    Seq::new(ps.len(), |i: int| Json::deep_of(ps[i]))
}

/// The text of the `OutputText` events among `outs`, in order.
pub open spec fn texts_of(outs: Seq<OutputEventV>) -> Seq<char>
    decreases outs.len(),
{
    if outs.len() == 0 {
        Seq::empty()
    } else {
        texts_of(outs.subrange(0, outs.len() - 1)) + match outs[outs.len() - 1] {
            OutputEventV::OutputText(t) => t,
            _ => Seq::empty(),
        }
    }
}

pub proof fn lemma_texts_of_concat(a: Seq<OutputEventV>, b: Seq<OutputEventV>)
    ensures
        texts_of(a + b) == texts_of(a) + texts_of(b),
    decreases b.len(),
{
    if b.len() == 0 {
        assert(a + b =~= a);
        assert(texts_of(a) + Seq::<char>::empty() =~= texts_of(a));
    } else {
        let b0 = b.subrange(0, b.len() - 1);
        lemma_texts_of_concat(a, b0);
        assert((a + b).subrange(0, (a + b).len() - 1) =~= a + b0);
        let last = match b[b.len() - 1] {
            OutputEventV::OutputText(t) => t,
            _ => Seq::<char>::empty(),
        };
        assert(texts_of(a) + texts_of(b0) + last =~= texts_of(a) + (texts_of(b0) + last));
    }
}

proof fn lemma_deltas_no_text(acc: Seq<AccumV>, tcs: Seq<JsonV>)
    ensures
        texts_of(apply_deltas(acc, tcs).1) == Seq::<char>::empty(),
    decreases tcs.len(),
{
    if tcs.len() > 0 {
        let (a1, o1) = apply_delta(acc, tcs[0]);
        lemma_deltas_no_text(a1, tcs.subrange(1, tcs.len() as int));
        let o2 = apply_deltas(a1, tcs.subrange(1, tcs.len() as int)).1;
        lemma_texts_of_concat(o1, o2);
        match tcs[0].field("function"@).field("arguments"@).str_value() {
            Some(a) => {
                assert(o1 == seq![OutputEventV::OutputToolCallDelta(a)]);
                assert(o1.subrange(0, 0) =~= Seq::<OutputEventV>::empty());
                assert(texts_of(o1.subrange(0, 0)) =~= Seq::<char>::empty());
                assert(texts_of(o1) =~= Seq::<char>::empty());
            },
            None => {
                assert(o1 == Seq::<OutputEventV>::empty());
            },
        }
        assert(texts_of(o2) == Seq::<char>::empty());
        assert(Seq::<char>::empty() + Seq::<char>::empty() =~= Seq::<char>::empty());
    } else {
        assert(texts_of(apply_deltas(acc, tcs).1) =~= Seq::<char>::empty());
    }
}

/// The text that the payloads add to the content is the text they report,
/// in the same order.
pub proof fn lemma_payloads_text(content: Seq<char>, acc: Seq<AccumV>, ps: Seq<Option<JsonV>>)
    ensures
        apply_payloads(content, acc, ps).0 == content + texts_of(apply_payloads(content, acc, ps).2),
    decreases ps.len(),
{
    if ps.len() == 0 {
        assert(texts_of(Seq::<OutputEventV>::empty()) =~= Seq::<char>::empty());
        assert(content + Seq::<char>::empty() =~= content);
    } else {
        let (c1, a1, o1) = apply_payload(content, acc, ps[0]);
        let rest = ps.subrange(1, ps.len() as int);
        lemma_payloads_text(c1, a1, rest);
        let o2 = apply_payloads(c1, a1, rest).2;
        lemma_texts_of_concat(o1, o2);
        match ps[0] {
            None => {
                assert(texts_of(o1) =~= Seq::<char>::empty());
            },
            Some(v) => {
                let d = payload_delta(v);
                if !d.is_object() {
                    assert(texts_of(o1) =~= Seq::<char>::empty());
                } else {
                    let (cc, oc) = match opt_str_of(d.lookup("content"@)) {
                        Some(c) => (content + c, seq![OutputEventV::OutputText(c)]),
                        None => (content, Seq::<OutputEventV>::empty()),
                    };
                    assert(cc == content + texts_of(oc)) by {
                        if oc.len() == 1 {
                            assert(oc.subrange(0, 0) =~= Seq::<OutputEventV>::empty());
                            assert(texts_of(oc.subrange(0, 0)) =~= Seq::<char>::empty());
                        } else {
                            assert(texts_of(oc) =~= Seq::<char>::empty());
                            assert(content + Seq::<char>::empty() =~= content);
                        }
                    }
                    match opt_array_of(d.lookup("tool_calls"@)) {
                        Some(tcs) => {
                            lemma_deltas_no_text(acc, tcs);
                            lemma_texts_of_concat(oc, apply_deltas(acc, tcs).1);
                            assert(texts_of(oc) + Seq::<char>::empty() =~= texts_of(oc));
                        },
                        None => {},
                    }
                }
            },
        }
        assert(content + texts_of(o1) + texts_of(o2) =~= content + (texts_of(o1) + texts_of(o2)));
    }
}

proof fn lemma_apply_delta_len(acc: Seq<AccumV>, tc: JsonV)
    requires
        delta_index(tc) <= acc.len(),
    ensures
        apply_delta(acc, tc).0.len() == next_len(acc.len(), tc),
{
}

proof fn lemma_apply_deltas_len(acc: Seq<AccumV>, tcs: Seq<JsonV>)
    requires
        deltas_fit(acc.len(), tcs),
    ensures
        apply_deltas(acc, tcs).0.len() == deltas_len(acc.len(), tcs),
    decreases tcs.len(),
{
    if tcs.len() > 0 {
        lemma_apply_delta_len(acc, tcs[0]);
        lemma_apply_deltas_len(apply_delta(acc, tcs[0]).0, tcs.subrange(1, tcs.len() as int));
    }
}

proof fn lemma_apply_payload_len(c: Seq<char>, acc: Seq<AccumV>, p: Option<JsonV>)
    requires
        payload_fits(acc.len(), p),
    ensures
        apply_payload(c, acc, p).1.len() == payload_len(acc.len(), p),
{
    match payload_deltas(p) {
        Some(tcs) => lemma_apply_deltas_len(acc, tcs),
        None => {},
    }
}

fn string_of(s: &str) -> (r: String)
    ensures
        r@ == s@,
{
    owned(s)
}

/// Applies one tool call delta (see `apply_delta`).
pub fn apply_tool_call_delta(acc: &mut Vec<ToolCallAccum>, tc: &Json, outs: &mut Vec<OutputEvent>)
    requires
        delta_index(tc.deep()) <= old(acc)@.len(),
    ensures
        accums_view(final(acc)@) == apply_delta(accums_view(old(acc)@), tc.deep()).0,
        outputs_view(final(outs)@) == outputs_view(old(outs)@) + apply_delta(
            accums_view(old(acc)@),
            tc.deep(),
        ).1,
{
    let ghost acc0 = accums_view(acc@);
    let index: u64 = match tc.get("index") {
        Some(v) => match v.as_u64() {
            Some(i) => i,
            None => 0,
        },
        None => 0,
    };
    assert(index as nat == delta_index(tc.deep()));
    if index as usize >= acc.len() {
        acc.push(ToolCallAccum { id: None, name: String::new(), arguments: String::new() });
        proof {
            assert(accums_view(acc@) =~= acc0.push(empty_accum()));
        }
    }
    let ghost acc1 = accums_view(acc@);
    let i = index as usize;
    let function: Option<&Json> = tc.get("function");
    let new_id: Option<String> = match tc.get("id") {
        Some(v) => match v.as_str() {
            Some(s) => Some(string_of(s)),
            None => None,
        },
        None => None,
    };
    let name_part: Option<&str> = match function {
        Some(f) => match f.get("name") {
            Some(v) => v.as_str(),
            None => None,
        },
        None => None,
    };
    let args_part: Option<&str> = match function {
        Some(f) => match f.get("arguments") {
            Some(v) => v.as_str(),
            None => None,
        },
        None => None,
    };
    let id = match new_id {
        Some(s) => Some(s),
        None => match &acc[i].id {
            Some(s) => Some(s.clone()),
            None => None,
        },
    };
    let mut name = acc[i].name.clone();
    match name_part {
        Some(s) => name.append(s),
        None => {},
    }
    let mut arguments = acc[i].arguments.clone();
    match args_part {
        Some(s) => {
            arguments.append(s);
            let ghost before = outs@;
            outs.push(OutputEvent::OutputToolCallDelta(string_of(s)));
            proof {
                assert(outputs_view(outs@) =~= outputs_view(before) + seq![
                    OutputEventV::OutputToolCallDelta(s@),
                ]);
            }
        },
        None => {
            proof {
                assert(outputs_view(outs@) =~= outputs_view(outs@) + Seq::<OutputEventV>::empty());
            }
        },
    }
    let updated = ToolCallAccum { id, name, arguments };
    let ghost uv = updated@;
    acc.set(i, updated);
    proof {
        assert(accums_view(acc@) =~= acc1.update(i as int, uv));
    }
}

/// Applies tool call deltas in order (see `apply_deltas`).
pub fn apply_tool_call_deltas(acc: &mut Vec<ToolCallAccum>, tcs: &Vec<Json>, outs: &mut Vec<OutputEvent>)
    requires
        deltas_fit(old(acc)@.len(), Json::deep_seq(tcs@)),
    ensures
        accums_view(final(acc)@) == apply_deltas(accums_view(old(acc)@), Json::deep_seq(tcs@)).0,
        outputs_view(final(outs)@) == outputs_view(old(outs)@) + apply_deltas(
            accums_view(old(acc)@),
            Json::deep_seq(tcs@),
        ).1,
{
    let ghost ds = Json::deep_seq(tcs@);
    let ghost acc0 = accums_view(acc@);
    let ghost outs0 = outputs_view(outs@);
    proof {
        crate::json::lemma_deep_seq(tcs@);
        assert(ds.subrange(0, ds.len() as int) =~= ds);
        assert(outs0 + apply_deltas(acc0, ds).1 =~= outs0 + apply_deltas(acc0, ds).1);
    }
    let mut i: usize = 0;
    while i < tcs.len()
        invariant
            i <= tcs@.len(),
            ds == Json::deep_seq(tcs@),
            ds.len() == tcs@.len(),
            forall|k: int| 0 <= k < tcs@.len() ==> #[trigger] ds[k] == tcs@[k].deep(),
            deltas_fit(acc@.len(), ds.subrange(i as int, ds.len() as int)),
            apply_deltas(accums_view(acc@), ds.subrange(i as int, ds.len() as int)).0 == apply_deltas(
                acc0,
                ds,
            ).0,
            outputs_view(outs@) + apply_deltas(
                accums_view(acc@),
                ds.subrange(i as int, ds.len() as int),
            ).1 == outs0 + apply_deltas(acc0, ds).1,
        decreases tcs@.len() - i,
    {
        let ghost rest = ds.subrange(i as int, ds.len() as int);
        let ghost a = accums_view(acc@);
        let ghost o = outputs_view(outs@);
        proof {
            assert(rest[0] == tcs@[i as int].deep());
            assert(rest.subrange(1, rest.len() as int) =~= ds.subrange(i + 1, ds.len() as int));
            assert(accums_view(acc@).len() == acc@.len());
        }
        apply_tool_call_delta(acc, &tcs[i], outs);
        proof {
            let (a1, o1) = apply_delta(a, rest[0]);
            let (a2, o2) = apply_deltas(a1, rest.subrange(1, rest.len() as int));
            assert(outputs_view(outs@) == o + o1);
            assert(o + (o1 + o2) =~= (o + o1) + o2);
            lemma_apply_delta_len(a, rest[0]);
        }
        i = i + 1;
    }
    proof {
        assert(ds.subrange(tcs@.len() as int, ds.len() as int) =~= Seq::<JsonV>::empty());
        assert(outputs_view(outs@) + Seq::<OutputEventV>::empty() =~= outputs_view(outs@));
    }
}

/// Applies one parsed payload (see `apply_payload`).
pub fn apply_parsed_payload(
    content: &mut String,
    acc: &mut Vec<ToolCallAccum>,
    p: &Option<Json>,
    outs: &mut Vec<OutputEvent>,
)
    requires
        payload_fits(old(acc)@.len(), Json::deep_of(*p)),
    ensures
        ({
            let (c, a, o) = apply_payload(
                old(content)@,
                accums_view(old(acc)@),
                Json::deep_of(*p),
            );
            &&& final(content)@ == c
            &&& accums_view(final(acc)@) == a
            &&& outputs_view(final(outs)@) == outputs_view(old(outs)@) + o
        }),
{
    proof {
        assert(outputs_view(outs@) + Seq::<OutputEventV>::empty() =~= outputs_view(outs@));
    }
    match p {
        None => {},
        Some(v) => {
            let delta: Option<&Json> = match v.get("choices") {
                Some(c) => match c.at(0) {
                    Some(first) => first.get("delta"),
                    None => None,
                },
                None => None,
            };
            match delta {
                Some(d) => {
                    if d.is_object() {
                        let ghost o0 = outputs_view(outs@);
                        match d.get("content") {
                            Some(cv) => match cv.as_str() {
                                Some(c) => {
                                    content.append(c);
                                    outs.push(OutputEvent::OutputText(string_of(c)));
                                    proof {
                                        assert(outputs_view(outs@) =~= o0 + seq![
                                            OutputEventV::OutputText(c@),
                                        ]);
                                    }
                                },
                                None => {},
                            },
                            None => {},
                        }
                        let ghost o1 = outputs_view(outs@);
                        match d.get("tool_calls") {
                            Some(tv) => match tv.as_array() {
                                Some(tcs) => {
                                    apply_tool_call_deltas(acc, tcs, outs);
                                    proof {
                                        assert(outputs_view(outs@) =~= o0 + ((o1.subrange(
                                            o0.len() as int,
                                            o1.len() as int,
                                        )) + outputs_view(outs@).subrange(
                                            o1.len() as int,
                                            outputs_view(outs@).len() as int,
                                        )));
                                    }
                                },
                                None => {
                                    assert(outputs_view(outs@) =~= o0 + o1.subrange(
                                        o0.len() as int,
                                        o1.len() as int,
                                    ));
                                },
                            },
                            None => {
                                assert(outputs_view(outs@) =~= o0 + o1.subrange(
                                    o0.len() as int,
                                    o1.len() as int,
                                ));
                            },
                        }
                    }
                },
                None => {},
            }
        },
    }
}

/// Whether the tool call deltas fit (see `deltas_fit`), and the number of calls after them.
fn deltas_fit_check(len: u128, tcs: &Vec<Json>) -> (r: (bool, u128))
    requires
        len <= 0x1_0000_0000_0000_0000,
    ensures
        r.0 == deltas_fit(len as nat, Json::deep_seq(tcs@)),
        r.0 ==> r.1 == deltas_len(len as nat, Json::deep_seq(tcs@)),
        r.1 <= 0x1_0000_0000_0000_0000,
{
    let ghost ds = Json::deep_seq(tcs@);
    proof {
        crate::json::lemma_deep_seq(tcs@);
        assert(ds.subrange(0, ds.len() as int) =~= ds);
    }
    let mut cur = len;
    let mut i: usize = 0;
    while i < tcs.len()
        invariant
            i <= tcs@.len(),
            ds == Json::deep_seq(tcs@),
            ds.len() == tcs@.len(),
            forall|k: int| 0 <= k < tcs@.len() ==> #[trigger] ds[k] == tcs@[k].deep(),
            cur <= 0x1_0000_0000_0000_0000,
            deltas_fit(len as nat, ds) == deltas_fit(cur as nat, ds.subrange(i as int, ds.len() as int)),
            deltas_len(len as nat, ds) == deltas_len(cur as nat, ds.subrange(i as int, ds.len() as int)),
        decreases tcs@.len() - i,
    {
        let ghost rest = ds.subrange(i as int, ds.len() as int);
        proof {
            assert(rest[0] == tcs@[i as int].deep());
            assert(rest.subrange(1, rest.len() as int) =~= ds.subrange(i + 1, ds.len() as int));
        }
        let index: u64 = match tcs[i].get("index") {
            Some(v) => match v.as_u64() {
                Some(x) => x,
                None => 0,
            },
            None => 0,
        };
        if index as u128 > cur {
            return (false, cur);
        }
        if index as u128 >= cur {
            cur = cur + 1;
        }
        i = i + 1;
    }
    proof {
        assert(ds.subrange(tcs@.len() as int, ds.len() as int) =~= Seq::<JsonV>::empty());
    }
    (true, cur)
}

/// Whether every tool call delta of the payloads fits, where `len` calls
/// exist at the start (see `payloads_fit`).
pub fn payloads_fit_check(len: usize, ps: &Vec<Option<Json>>) -> (r: bool)
    ensures
        r == payloads_fit(len as nat, parsed_view(ps@)),
{
    let ghost pv = parsed_view(ps@);
    proof {
        assert(pv.subrange(0, pv.len() as int) =~= pv);
    }
    let mut cur: u128 = len as u128;
    let mut i: usize = 0;
    while i < ps.len()
        invariant
            i <= ps@.len(),
            pv == parsed_view(ps@),
            cur <= 0x1_0000_0000_0000_0000,
            payloads_fit(len as nat, pv) == payloads_fit(cur as nat, pv.subrange(i as int, pv.len() as int)),
        decreases ps@.len() - i,
    {
        let ghost rest = pv.subrange(i as int, pv.len() as int);
        proof {
            assert(rest[0] == Json::deep_of(ps@[i as int]));
            assert(rest.subrange(1, rest.len() as int) =~= pv.subrange(i + 1, pv.len() as int));
        }
        let tcs: Option<&Vec<Json>> = match &ps[i] {
            None => None,
            Some(v) => {
                let delta: Option<&Json> = match v.get("choices") {
                    Some(c) => match c.at(0) {
                        Some(first) => first.get("delta"),
                        None => None,
                    },
                    None => None,
                };
                match delta {
                    Some(d) => if d.is_object() {
                        match d.get("tool_calls") {
                            Some(tv) => tv.as_array(),
                            None => None,
                        }
                    } else {
                        None
                    },
                    None => None,
                }
            },
        };
        match tcs {
            Some(t) => {
                let (ok, next) = deltas_fit_check(cur, t);
                if !ok {
                    return false;
                }
                cur = next;
            },
            None => {},
        }
        i = i + 1;
    }
    proof {
        assert(pv.subrange(ps@.len() as int, pv.len() as int) =~= Seq::<Option<JsonV>>::empty());
    }
    true
}

/// Applies parsed payloads in order (see `apply_payloads`).
pub fn apply_parsed_payloads(
    content: &mut String,
    acc: &mut Vec<ToolCallAccum>,
    ps: &Vec<Option<Json>>,
    outs: &mut Vec<OutputEvent>,
)
    requires
        payloads_fit(old(acc)@.len(), parsed_view(ps@)),
    ensures
        ({
            let (c, a, o) = apply_payloads(old(content)@, accums_view(old(acc)@), parsed_view(ps@));
            &&& final(content)@ == c
            &&& accums_view(final(acc)@) == a
            &&& outputs_view(final(outs)@) == outputs_view(old(outs)@) + o
        }),
{
    let ghost pv = parsed_view(ps@);
    let ghost c0 = content@;
    let ghost a0 = accums_view(acc@);
    let ghost o0 = outputs_view(outs@);
    proof {
        assert(pv.subrange(0, pv.len() as int) =~= pv);
    }
    let mut i: usize = 0;
    while i < ps.len()
        invariant
            i <= ps@.len(),
            pv == parsed_view(ps@),
            payloads_fit(acc@.len(), pv.subrange(i as int, pv.len() as int)),
            ({
                let (c, a, o) = apply_payloads(
                    content@,
                    accums_view(acc@),
                    pv.subrange(i as int, pv.len() as int),
                );
                let (cf, af, of) = apply_payloads(c0, a0, pv);
                &&& c == cf
                &&& a == af
                &&& outputs_view(outs@) + o == o0 + of
            }),
        decreases ps@.len() - i,
    {
        let ghost rest = pv.subrange(i as int, pv.len() as int);
        let ghost c = content@;
        let ghost a = accums_view(acc@);
        let ghost o = outputs_view(outs@);
        proof {
            assert(rest[0] == Json::deep_of(ps@[i as int]));
            assert(rest.subrange(1, rest.len() as int) =~= pv.subrange(i + 1, pv.len() as int));
            assert(a.len() == acc@.len());
            lemma_apply_payload_len(c, a, rest[0]);
            lemma_apply_payload_len(Seq::empty(), a, rest[0]);
        }
        apply_parsed_payload(content, acc, &ps[i], outs);
        proof {
            let (c1, a1, o1) = apply_payload(c, a, rest[0]);
            let (c2, a2, o2) = apply_payloads(c1, a1, rest.subrange(1, rest.len() as int));
            assert(o + (o1 + o2) =~= (o + o1) + o2);
            assert(accums_view(acc@).len() == acc@.len());
        }
        i = i + 1;
    }
    proof {
        assert(pv.subrange(ps@.len() as int, pv.len() as int) =~= Seq::<Option<JsonV>>::empty());
        assert(outputs_view(outs@) + Seq::<OutputEventV>::empty() =~= outputs_view(outs@));
    }
}

} // verus!
