//! Member calls on receivers of every kind.
use crate::builder::builder_method;
use crate::chars::char_method;
use crate::display::kotlin_string;
use crate::hof::texts_of_groups;
use crate::host::Host;
use crate::lazyseq::gen_with;
use crate::numbers::{number_method, trailing_width};
use crate::objects::{equals, obj_method};
use crate::receiver::{groups_of, sequence_preserving, unresolved_text, SeqKind};
use crate::reply::{settle, Answer, Reply};
use crate::search::replace_all;
use crate::sequences::sequence_member;
use crate::strings::{chars_of, int_arg, number_message, string_member};
use crate::text::same;
use crate::types::{type_label, value_order};
use crate::utf16::utf16_to_string;
use crate::value::{char_code, copy_values, HeapObj, Stage, Value};
use crate::walk::{hash_vm, host_before, Stop, Turn};
use vstd::prelude::*;

verus! {

use crate::builder::builder_member;
use crate::chars::char_member;
use crate::compare::budget;
use crate::display::text_of;
use crate::hof::group_texts;
use crate::host::HostView;
use crate::lazyseq::{gen_of, with_stage};
use crate::numbers::{number_member, width_at};
use crate::objects::{equals_reply, object_walk};
use crate::operators::replied;
use crate::receiver::{grouped, keeps_sequence, unresolved};
use crate::reply::{settled, AnswerView, ReplyView};
use crate::search::replaced;
use crate::sequences::{count_fault, maybe_replied, shared_member};
use crate::strings::{arg_int, char_values, text_member};
use crate::types::{natural_order, scalar_label};
use crate::utf16::text_of_units;
use crate::value::{code_of, ObjView};
use crate::walk::{hash_walk, host_at, result_of, Answers};

/// The members that every value has: its text, its hash (a `Long` folds its
/// halves) and `equals`.
pub open spec fn universal_member(
    h: HostView,
    recv: Value,
    name: Seq<char>,
    args: Seq<Value>,
    log: Answers,
) -> Result<Option<ReplyView>, Stop> {
    if name == "toString"@ {
        Ok(Some(ReplyView::Text(text_of(h, recv))))
    } else if name == "hashCode"@ {
        match result_of(hash_walk(h, log, 0, recv, width_at(h, args, 0) == 64, budget(h))) {
            Err(s) => Err(s),
            Ok(n) => Ok(Some(ReplyView::Value(Value::Int(n as i64)))),
        }
    } else if name == "equals"@ {
        equals_reply(h, recv, args, log)
    } else {
        Ok(None)
    }
}

/// The collection members of a text, over its characters. `chunked` and
/// `windowed` answer texts.
pub open spec fn charseq_walk(
    h: HostView,
    s: Seq<char>,
    name: Seq<char>,
    args: Seq<Value>,
    log: Answers,
) -> Result<ReplyView, Stop> {
    let chars = char_values(s);
    if name == "chunked"@ || name == "windowed"@ {
        match grouped(h, chars, name, args) {
            Err(m) => Ok(ReplyView::Fault(m)),
            Ok(gs) => Ok(ReplyView::Texts(group_texts(h, gs))),
        }
    } else {
        match shared_member(h, chars, None, SeqKind::Chars, None, name, args, log) {
            Err(e) => Err(e),
            Ok(Some(r)) => Ok(r),
            Ok(None) => Ok(ReplyView::Fault(unresolved(name, "String"@))),
        }
    }
}

/// The members of a text: its own first, so that one that a collection has too
/// keeps the text's behaviour.
pub open spec fn text_walk(
    h: HostView,
    recv: Value,
    s: Seq<char>,
    name: Seq<char>,
    args: Seq<Value>,
    log: Answers,
) -> Result<ReplyView, Stop> {
    match text_member(h, recv, s, name, args) {
        Some(r) => Ok(r),
        None => if name == "format"@ {
            Ok(ReplyView::Format(s, args))
        } else {
            match universal_member(h, recv, name, args, log) {
                Err(e) => Err(e),
                Ok(Some(r)) => Ok(r),
                Ok(None) => charseq_walk(h, s, name, args, log),
            }
        },
    }
}

/// A reply whose fault names a `StringBuilder` in place of a `String`.
pub open spec fn for_builder(r: Result<ReplyView, Stop>) -> Result<ReplyView, Stop> {
    match r {
        Ok(ReplyView::Fault(m)) => Ok(
            ReplyView::Fault(replaced(m, "on String"@, "on StringBuilder"@)),
        ),
        other => other,
    }
}

/// The members of a `StringBuilder`: those it shares with every object, its own,
/// and those of the text that it holds.
pub open spec fn builder_walk(
    h: HostView,
    recv: Value,
    units: Seq<u16>,
    cap: int,
    name: Seq<char>,
    args: Seq<Value>,
    log: Answers,
) -> Result<ReplyView, Stop> {
    if name == "hashCode"@ {
        match result_of(hash_walk(h, log, 0, recv, false, budget(h))) {
            Err(s) => Err(s),
            Ok(n) => Ok(ReplyView::Value(Value::Int(n as i64))),
        }
    } else if name == "equals"@ {
        match equals_reply(h, recv, args, log) {
            Ok(Some(r)) => Ok(r),
            Ok(None) => Err(Stop::TooDeep),
            Err(s) => Err(s),
        }
    } else {
        match builder_member(h, recv, units, cap, name, args) {
            Some(r) => Ok(r),
            None => for_builder(
                text_walk(h, Value::Undef, text_of_units(units), name, args, log),
            ),
        }
    }
}

/// The members of a lazy sequence: `take` and `drop` stay lazy, and the rest are
/// those of the list that it gives.
pub open spec fn gen_member(h: HostView, recv: Value, name: Seq<char>, args: Seq<Value>) -> ReplyView {
    let n = arg_int(h, args, 0, 0);
    if name == "take"@ || name == "drop"@ {
        if n < 0 {
            ReplyView::Fault(count_fault(n))
        } else {
            ReplyView::Object(
                with_stage(
                    gen_of(h, recv)->0,
                    if name == "take"@ {
                        Stage::Take(n as i64)
                    } else {
                        Stage::Drop(n as i64)
                    },
                ),
            )
        }
    } else if name == "asSequence"@ {
        ReplyView::Value(recv)
    } else {
        ReplyView::Pull
    }
}

/// The members of numbers, truth values and null.
pub open spec fn plain_walk(
    h: HostView,
    recv: Value,
    name: Seq<char>,
    args: Seq<Value>,
    log: Answers,
) -> Result<ReplyView, Stop> {
    match number_member(h, recv, name, args) {
        Some(r) => Ok(r),
        None => match universal_member(h, recv, name, args, log) {
            Err(s) => Err(s),
            Ok(Some(r)) => Ok(r),
            Ok(None) => if name == "compareTo"@ && (recv is Int || recv is Float || recv is Bool) {
                Ok(
                    ReplyView::Value(
                        Value::Int(
                            natural_order(
                                h,
                                recv,
                                if args.len() > 0 {
                                    args[0]
                                } else {
                                    Value::Int(0)
                                },
                            ) as i64,
                        ),
                    ),
                )
            } else {
                Ok(ReplyView::Fault(unresolved(name, scalar_label(recv))))
            },
        },
    }
}

/// A member of a value.
pub open spec fn method_walk(
    h: HostView,
    recv: Value,
    name: Seq<char>,
    args: Seq<Value>,
    log: Answers,
) -> Result<ReplyView, Stop> {
    let g = host_at(h, log, 0);
    match code_of(recv) {
        Some(code) => Ok(char_member(h, code, name, args)),
        None => match recv {
            Value::Str(id) => text_walk(h, recv, h.text(id), name, args, log),
            Value::Obj(_) => match g.obj(recv) {
                Some(ObjView::Builder { units, cap }) => builder_walk(
                    h,
                    recv,
                    units,
                    cap,
                    name,
                    args,
                    log,
                ),
                Some(ObjView::Gen { .. }) => Ok(gen_member(g, recv, name, args)),
                _ => object_walk(h, recv, name, args, log),
            },
            _ => plain_walk(h, recv, name, args, log),
        },
    }
}

fn universal(h: &Host, recv: Value, name: &str, args: &Vec<Value>, answers: &Vec<Turn>) -> (r:
    Result<Option<Reply>, Stop>)
    ensures
        maybe_replied(r) == universal_member(h@, recv, name@, args@, answers@),
{
    if same(name, "toString") {
        Ok(Some(Reply::Text(kotlin_string(h, recv))))
    } else if same(name, "hashCode") {
        match hash_vm(h, recv, trailing_width(h, args, 0) == 64, answers) {
            Err(s) => Err(s),
            Ok(n) => Ok(Some(Reply::Value(Value::Int(n as i64)))),
        }
    } else if same(name, "equals") {
        equals(h, recv, args, answers)
    } else {
        Ok(None)
    }
}

/// The collection members of a text, over its characters.
pub fn charseq_member(
    h: &Host,
    s: &str,
    name: &str,
    args: &Vec<Value>,
    answers: &Vec<Turn>,
) -> (r: Result<Reply, Stop>)
    ensures
        replied(r) == charseq_walk(h@, s@, name@, args@, answers@),
{
    let chars: Vec<Value> = chars_of(s);
    if same(name, "chunked") || same(name, "windowed") {
        return match groups_of(h, &chars, name, args) {
            Err(m) => Ok(Reply::Fault(m)),
            Ok(gs) => Ok(Reply::Texts(texts_of_groups(h, &gs))),
        };
    }
    match sequence_member(h, &chars, None, SeqKind::Chars, None, name, args, answers) {
        Err(e) => Err(e),
        Ok(Some(r)) => Ok(r),
        Ok(None) => Ok(Reply::Fault(unresolved_text(name, "String"))),
    }
}

fn of_text(
    h: &Host,
    recv: Value,
    s: &str,
    name: &str,
    args: &Vec<Value>,
    answers: &Vec<Turn>,
) -> (r: Result<Reply, Stop>)
    ensures
        replied(r) == text_walk(h@, recv, s@, name@, args@, answers@),
{
    if let Some(r) = string_member(h, recv, s, name, args) {
        return Ok(r);
    }
    if same(name, "format") {
        return Ok(Reply::Format(s.to_owned(), copy_values(args)));
    }
    match universal(h, recv, name, args, answers) {
        Err(e) => Err(e),
        Ok(Some(r)) => Ok(r),
        Ok(None) => charseq_member(h, s, name, args, answers),
    }
}

fn of_builder(
    h: &Host,
    recv: Value,
    units: &Vec<u16>,
    cap: usize,
    name: &str,
    args: &Vec<Value>,
    answers: &Vec<Turn>,
) -> (r: Result<Reply, Stop>)
    ensures
        replied(r) == builder_walk(h@, recv, units@, cap as int, name@, args@, answers@),
{
    if same(name, "hashCode") {
        return match hash_vm(h, recv, false, answers) {
            Err(s) => Err(s),
            Ok(n) => Ok(Reply::Value(Value::Int(n as i64))),
        };
    }
    if same(name, "equals") {
        return match equals(h, recv, args, answers) {
            Ok(Some(r)) => Ok(r),
            Ok(None) => Err(Stop::TooDeep),
            Err(s) => Err(s),
        };
    }
    if let Some(r) = builder_method(h, recv, units, cap, name, args) {
        return Ok(r);
    }
    let s: String = utf16_to_string(units);
    match of_text(h, Value::Undef, s.as_str(), name, args, answers) {
        Ok(Reply::Fault(m)) => Ok(
            Reply::Fault(replace_all(m.as_str(), "on String", "on StringBuilder")),
        ),
        other => other,
    }
}

fn of_gen(h: &Host, recv: Value, name: &str, args: &Vec<Value>) -> (r: Reply)
    requires
        gen_of(h@, recv) is Some,
    ensures
        r@ == gen_member(h@, recv, name@, args@),
{
    let n: i64 = int_arg(h, args, 0, 0);
    if same(name, "take") || same(name, "drop") {
        if n < 0 {
            return Reply::Fault(
                number_message(
                    "java.lang.IllegalArgumentException: Requested element count ",
                    n,
                    " is less than zero.",
                ),
            );
        }
        let stage: Stage = if same(name, "take") {
            Stage::Take(n)
        } else {
            Stage::Drop(n)
        };
        Reply::Object(gen_with(h, recv, stage))
    } else if same(name, "asSequence") {
        Reply::Value(recv)
    } else {
        Reply::Pull
    }
}

fn of_plain(h: &Host, recv: Value, name: &str, args: &Vec<Value>, answers: &Vec<Turn>) -> (r:
    Result<Reply, Stop>)
    ensures
        replied(r) == plain_walk(h@, recv, name@, args@, answers@),
{
    if let Some(r) = number_method(h, recv, name, args) {
        return Ok(r);
    }
    match universal(h, recv, name, args, answers) {
        Err(s) => Err(s),
        Ok(Some(r)) => Ok(r),
        Ok(None) => {
            if same(name, "compareTo") && matches!(
                recv,
                Value::Int(_) | Value::Float(_) | Value::Bool(_)
            ) {
                let other: Value = if args.len() > 0 {
                    args[0]
                } else {
                    Value::Int(0)
                };
                return Ok(Reply::Value(Value::Int(value_order(h, recv, other) as i64)));
            }
            Ok(Reply::Fault(unresolved_text(name, type_label(recv))))
        },
    }
}

/// Dispatch a member call on any value.
pub fn kt_method(h: &Host, recv: Value, name: &str, args: &Vec<Value>, answers: &Vec<Turn>) -> (r:
    Result<Reply, Stop>)
    ensures
        replied(r) == method_walk(h@, recv, name@, args@, answers@),
{
    if let Some(code) = char_code(&recv) {
        return Ok(char_method(h, code, name, args));
    }
    let g: &Host = host_before(h, answers);
    match recv {
        Value::Str(id) => of_text(h, recv, h.text(id), name, args, answers),
        Value::Obj(_) => match g.obj(recv) {
            Some(HeapObj::Builder { units, cap }) => of_builder(
                h,
                recv,
                units,
                *cap,
                name,
                args,
                answers,
            ),
            Some(HeapObj::Gen { .. }) => Ok(of_gen(g, recv, name, args)),
            _ => obj_method(h, recv, name, args, answers),
        },
        _ => of_plain(h, recv, name, args, answers),
    }
}

/// The state after a member's reply is stored, and what the call answers. What a
/// sequence derives stays a sequence.
pub open spec fn finished(h: HostView, recv: Value, name: Seq<char>, r: ReplyView) -> (
    HostView,
    AnswerView,
) {
    let (g, a) = settled(h, r);
    match a {
        AnswerView::Value(v) => if h.is_sequence(recv) && keeps_sequence(name) {
            (g.with_sequence_tag(v), a)
        } else {
            (g, a)
        },
        _ => (g, a),
    }
}

/// Store a member's reply and answer the call.
pub fn finish(h: &mut Host, recv: Value, name: &str, r: Reply) -> (a: Answer)
    ensures
        (final(h)@, a@) == finished(old(h)@, recv, name@, r@),
{
    let from_sequence: bool = h.is_sequence_view(recv);
    let a: Answer = settle(h, r);
    if let Answer::Value(v) = &a {
        if from_sequence && sequence_preserving(name) {
            h.tag_sequence(*v);
        }
    }
    a
}

} // verus!
