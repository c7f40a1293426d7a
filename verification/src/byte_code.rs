//! Laws that tie the assembler's byte code to the processor that runs it:
//! loading assembled byte code gives back its words, and each statement of
//! the program stands at its place with its operation and operands.
use vstd::prelude::*;
use vstd::utf8::{decode_utf8, valid_utf8};

use crate::assembler::grammar::{
    build, build_item, byte_code, bytes_of, header_size, lemma_build_push, place, resolve,
    resolved_text, string_words, Cell, Item, Layout, Slot,
};
use crate::assembler::grammar::{assembled, parse_items, tokens};
use crate::assembler::opcode::{lemma_opcode_roundtrip, opcode_of, opcode_value};
use crate::assembler::literals::{item_valid, lemma_literals_valid};
use crate::processor::decoder::{stored_bytes, stored_string};
use crate::processor::memory::word_values;
use crate::processor::split_words;
use crate::word::{lemma_word_roundtrip, word_bytes, word_value};

verus! {

/// A string without a zero byte, which would end it early in the data section.
pub open spec fn zero_free(t: Seq<u8>) -> bool {
    forall|k: int| 0 <= k < t.len() ==> t[k] != 0
}

/// The bytes of a sequence of words hold each word's four bytes in turn.
pub proof fn lemma_bytes_of(ws: Seq<u32>)
    ensures
        bytes_of(ws).len() == 4 * ws.len(),
        forall|i: int|
            0 <= i < ws.len() ==> #[trigger] bytes_of(ws).subrange(4 * i, 4 * i + 4) == word_bytes(
                ws[i],
            ),
    decreases ws.len(),
{
    if ws.len() > 0 {
        let p = ws.drop_last();
        lemma_bytes_of(p);
        lemma_word_roundtrip(ws.last());
        assert forall|i: int| 0 <= i < ws.len() implies #[trigger] bytes_of(ws).subrange(
            4 * i,
            4 * i + 4,
        ) == word_bytes(ws[i]) by {
            if i < p.len() {
                assert(bytes_of(ws).subrange(4 * i, 4 * i + 4) =~= bytes_of(p).subrange(
                    4 * i,
                    4 * i + 4,
                ));
                assert(ws[i] == p[i]);
            } else {
                assert(bytes_of(ws).subrange(4 * i, 4 * i + 4) =~= word_bytes(ws.last()));
            }
        }
    }
}

/// Loading the bytes of a sequence of words gives the words back.
pub proof fn lemma_load_words(ws: Seq<u32>, memory: Seq<[u8; 4]>)
    requires
        split_words(bytes_of(ws), memory),
    ensures
        word_values(memory) == ws,
{
    lemma_bytes_of(ws);
    assert(memory.len() == ws.len());
    assert forall|i: int| 0 <= i < ws.len() implies word_values(memory)[i] == ws[i] by {
        assert(memory[i]@ == bytes_of(ws).subrange(4 * i, 4 * i + 4));
        lemma_word_roundtrip(ws[i]);
    }
    assert(word_values(memory) =~= ws);
}

/// A string laid out in the data words reads back whole.
pub proof fn lemma_string_reads_back(words: Seq<u32>, at: int, t: Seq<u8>)
    requires
        zero_free(t),
        0 <= at,
        at + t.len() + 1 <= words.len(),
        words.subrange(at, at + t.len() + 1) == string_words(t),
    ensures
        stored_bytes(words, at) == Some(t),
    decreases t.len(),
{
    assert(words[at] == words.subrange(at, at + t.len() + 1)[0]);
    if t.len() == 0 {
        assert(string_words(t)[0] == 0);
    } else {
        let rest = t.drop_first();
        assert forall|k: int| 0 <= k < rest.len() + 1 implies words.subrange(
            at + 1,
            at + 1 + rest.len() + 1,
        )[k] == string_words(rest)[k] by {
            assert(words.subrange(at + 1, at + 1 + rest.len() + 1)[k] == words.subrange(
                at,
                at + t.len() + 1,
            )[k + 1]);
        }
        assert(words.subrange(at + 1, at + 1 + rest.len() + 1) =~= string_words(rest));
        lemma_string_reads_back(words, at + 1, rest);
        assert(string_words(t)[0] == t[0] as u32);
        assert(seq![words[at] as u8] + rest =~= t);
    }
}

/// `p` is the start of `s`.
pub open spec fn starts(s: Seq<u32>, p: Seq<u32>) -> bool {
    p.len() <= s.len() && s.subrange(0, p.len() as int) == p
}

/// Laying out one more statement only adds text and data at the end.
pub proof fn lemma_build_item_grows(b: Layout, item: Item)
    requires
        build_item(b, item) is Some,
    ensures
        build_item(b, item).unwrap().text.subrange(0, b.text.len() as int) == b.text,
        starts(build_item(b, item).unwrap().data, b.data),
{
    let b2 = build_item(b, item).unwrap();
    match item {
        Item::Label(_) => {
            assert(b2.text.subrange(0, b.text.len() as int) =~= b.text);
            assert(b2.data.subrange(0, b.data.len() as int) =~= b.data);
        },
        Item::Op(op, s1, s2, s3) => {
            let (c1, d1) = place(s1, b.data).unwrap();
            let (c2, d2) = place(s2, d1).unwrap();
            let (c3, d3) = place(s3, d2).unwrap();
            lemma_place_grows(s1, b.data);
            lemma_place_grows(s2, d1);
            lemma_place_grows(s3, d2);
            assert(b2.text.subrange(0, b.text.len() as int) =~= b.text);
            assert(d3.subrange(0, b.data.len() as int) =~= b.data) by {
                assert(d3.subrange(0, d1.len() as int).subrange(0, b.data.len() as int) =~= d3.subrange(
                    0,
                    b.data.len() as int,
                ));
                assert(d3.subrange(0, d2.len() as int).subrange(0, d1.len() as int) =~= d3.subrange(
                    0,
                    d1.len() as int,
                ));
            }
        },
    }
}

/// Placing an operand only adds data at the end.
pub proof fn lemma_place_grows(s: Slot, d: Seq<u32>)
    requires
        place(s, d) is Some,
    ensures
        starts(place(s, d).unwrap().1, d),
{
    let d2 = place(s, d).unwrap().1;
    assert(d2.subrange(0, d.len() as int) =~= d);
}

/// The layout of the first `k` statements of a program that lays out is a
/// start of the program's layout.
pub proof fn lemma_build_grows(items: Seq<Item>, k: int)
    requires
        0 <= k <= items.len(),
        build(items) is Some,
    ensures
        build(items.take(k)) is Some,
        build(items.take(k)).unwrap().text.len() <= build(items).unwrap().text.len(),
        build(items).unwrap().text.subrange(0, build(items.take(k)).unwrap().text.len() as int)
            == build(items.take(k)).unwrap().text,
        starts(build(items).unwrap().data, build(items.take(k)).unwrap().data),
    decreases items.len() - k,
{
    if k == items.len() {
        assert(items.take(k) =~= items);
        let b = build(items).unwrap();
        assert(b.text.subrange(0, b.text.len() as int) =~= b.text);
        assert(b.data.subrange(0, b.data.len() as int) =~= b.data);
    } else {
        lemma_build_grows(items, k + 1);
        assert(items.take(k + 1) =~= items.take(k).push(items[k]));
        lemma_build_push(items.take(k), items[k]);
        let pre = build(items.take(k)).unwrap();
        let next = build(items.take(k + 1)).unwrap();
        let b = build(items).unwrap();
        lemma_build_item_grows(pre, items[k]);
        assert(b.text.subrange(0, pre.text.len() as int) =~= b.text.subrange(
            0,
            next.text.len() as int,
        ).subrange(0, pre.text.len() as int));
        assert(b.data.subrange(0, pre.data.len() as int) =~= b.data.subrange(
            0,
            next.data.len() as int,
        ).subrange(0, pre.data.len() as int));
    }
}

/// The word index at which statement `k` of a program starts, counting the
/// header.
pub open spec fn statement_address(items: Seq<Item>, k: int) -> int {
    header_size() + build(items.take(k)).unwrap().text.len()
}

/// What operand word `w` of a statement in the byte code means: a number is
/// itself, a label reference is the address of the label's statement, and a
/// string (without zero bytes) can be read back from the data section at
/// that offset.
pub open spec fn operand_reads_back(
    words: Seq<u32>,
    data_start: int,
    labels: Map<Seq<u8>, nat>,
    s: Slot,
    w: u32,
) -> bool {
    match s {
        Slot::Word(v) => w == v,
        Slot::Target(l) => labels.contains_key(l) && w == labels[l] + header_size(),
        Slot::Text(t) => zero_free(t) ==> stored_bytes(words, data_start + w) == Some(t),
    }
}

/// A string operand (without zero bytes) reads back from the data section
/// as the characters that its bytes encode.
pub open spec fn string_reads_back(words: Seq<u32>, data_start: int, s: Slot, w: u32) -> bool {
    match s {
        Slot::Text(t) => zero_free(t) ==> stored_string(words, data_start, w) == Some(
            decode_utf8(t),
        ),
        _ => true,
    }
}

proof fn lemma_slot(words: Seq<u32>, b: Layout, s: Slot, d: Seq<u32>, w: u32)
    requires
        place(s, d) is Some,
        starts(b.data, place(s, d).unwrap().1),
        resolve(place(s, d).unwrap().0, b.labels) == Some(w),
        words == seq![header_size(), (header_size() + b.text.len()) as u32] + resolved_text(b)
            + b.data,
    ensures
        operand_reads_back(words, header_size() + b.text.len(), b.labels, s, w),
{
    let dsp = header_size() + b.text.len();
    match s {
        Slot::Text(t) => {
            if zero_free(t) {
                let d2 = place(s, d).unwrap().1;
                assert(w == d.len());
                assert(d2 == d + string_words(t));
                assert forall|k: int| 0 <= k < t.len() + 1 implies words.subrange(
                    dsp + w,
                    dsp + w + t.len() + 1,
                )[k] == string_words(t)[k] by {
                    assert(words[dsp + w + k] == b.data[d.len() + k]);
                    assert(b.data[d.len() + k] == b.data.subrange(0, d2.len() as int)[d.len() + k]);
                    assert(d2[d.len() + k] == string_words(t)[k]);
                }
                assert(words.subrange(dsp + w, dsp + w + t.len() + 1) =~= string_words(t));
                lemma_string_reads_back(words, dsp + w, t);
            }
        },
        _ => {},
    }
}

/// Each statement of an assembled program stands in the loaded byte code at
/// its address: the first word after loading is the first instruction's
/// address, the second the start of the data section, and the statement's
/// four words are its operation followed by its operands, each meaning what
/// `operand_reads_back` says.
#[verifier::rlimit(50)]
#[verifier::spinoff_prover]
pub proof fn lemma_statement_in_byte_code(items: Seq<Item>, k: int, memory: Seq<[u8; 4]>)
    requires
        0 <= k < items.len(),
        items[k] is Op,
        byte_code(items) is Some,
        split_words(byte_code(items).unwrap(), memory),
    ensures
        ({
            let b = build(items).unwrap();
            let words = word_values(memory);
            let p = statement_address(items, k);
            let dsp = header_size() + b.text.len();
            &&& words[0] == header_size()
            &&& words[1] == dsp
            &&& header_size() <= p
            &&& p + 4 <= dsp
            &&& dsp <= words.len()
            &&& match items[k] {
                Item::Op(op, s1, s2, s3) => {
                    &&& words[p] == opcode_value(op)
                    &&& opcode_of(words[p]) == Some(op)
                    &&& operand_reads_back(words, dsp, b.labels, s1, words[p + 1])
                    &&& operand_reads_back(words, dsp, b.labels, s2, words[p + 2])
                    &&& operand_reads_back(words, dsp, b.labels, s3, words[p + 3])
                },
                _ => true,
            }
        }),
{
    let b = build(items).unwrap();
    let ws = seq![header_size(), (header_size() + b.text.len()) as u32] + resolved_text(b)
        + b.data;
    assert(byte_code(items).unwrap() == bytes_of(ws));
    lemma_load_words(ws, memory);
    let words = word_values(memory);
    assert(words == ws);
    lemma_build_grows(items, k);
    lemma_build_grows(items, k + 1);
    assert(items.take(k + 1) =~= items.take(k).push(items[k]));
    lemma_build_push(items.take(k), items[k]);
    let pre = build(items.take(k)).unwrap();
    let next = build(items.take(k + 1)).unwrap();
    let n = pre.text.len() as int;
    match items[k] {
        Item::Op(op, s1, s2, s3) => {
            let (c1, d1) = place(s1, pre.data).unwrap();
            let (c2, d2) = place(s2, d1).unwrap();
            let (c3, d3) = place(s3, d2).unwrap();
            assert(next.text == pre.text + seq![Cell::Value(opcode_value(op)), c1, c2, c3]);
            assert(next.data == d3);
            lemma_place_grows(s2, d1);
            lemma_place_grows(s3, d2);
            assert forall|i: int| n <= i < n + 4 implies #[trigger] b.text[i] == next.text[i] by {
                assert(b.text[i] == b.text.subrange(0, next.text.len() as int)[i]);
            }
            assert forall|i: int|
                header_size() + n <= i < header_size() + n + 4 implies #[trigger] words[i]
                == resolve(b.text[i - header_size()], b.labels).unwrap() by {
                assert(ws[i] == resolved_text(b)[i - header_size()]);
            }
            assert(b.text[n] == next.text[n]);
            assert(b.text[n + 1] == next.text[n + 1]);
            assert(b.text[n + 2] == next.text[n + 2]);
            assert(b.text[n + 3] == next.text[n + 3]);
            assert(words[header_size() + n] == resolve(b.text[n], b.labels).unwrap());
            assert(words[header_size() + n + 1] == resolve(b.text[n + 1], b.labels).unwrap());
            assert(words[header_size() + n + 2] == resolve(b.text[n + 2], b.labels).unwrap());
            assert(words[header_size() + n + 3] == resolve(b.text[n + 3], b.labels).unwrap());
            assert(resolve(b.text[n + 1], b.labels) is Some);
            assert(resolve(b.text[n + 2], b.labels) is Some);
            assert(resolve(b.text[n + 3], b.labels) is Some);
            assert(starts(b.data, d1)) by {
                assert(b.data.subrange(0, d1.len() as int) =~= b.data.subrange(
                    0,
                    d3.len() as int,
                ).subrange(0, d1.len() as int));
                assert(d3.subrange(0, d1.len() as int) =~= d3.subrange(0, d2.len() as int).subrange(
                    0,
                    d1.len() as int,
                ));
            }
            assert(starts(b.data, d2)) by {
                assert(b.data.subrange(0, d2.len() as int) =~= b.data.subrange(
                    0,
                    d3.len() as int,
                ).subrange(0, d2.len() as int));
            }
            lemma_slot(words, b, s1, pre.data, words[header_size() + n + 1]);
            lemma_slot(words, b, s2, d1, words[header_size() + n + 2]);
            lemma_slot(words, b, s3, d2, words[header_size() + n + 3]);
            lemma_opcode_roundtrip(op, 0);
        },
        _ => {},
    }
}

/// The statements of an assembled source, loaded: `Assembler::assemble`
/// gives `assembled(src)` for the UTF-8 bytes `src` of the source, and
/// `Processor::load` splits it into the words of the memory. Each statement
/// of the source then stands at its address as
/// `lemma_statement_in_byte_code` says, and each of its string operands reads
/// back as the characters of its literal.
pub proof fn lemma_assembled_source(src: Seq<u8>, k: int, memory: Seq<[u8; 4]>)
    requires
        valid_utf8(src),
        assembled(src) is Some,
        split_words(assembled(src).unwrap(), memory),
        0 <= k < parse_items(src, tokens(src), 0).unwrap().len(),
        parse_items(src, tokens(src), 0).unwrap()[k] is Op,
    ensures
        ({
            let items = parse_items(src, tokens(src), 0).unwrap();
            let b = build(items).unwrap();
            let words = word_values(memory);
            let p = statement_address(items, k);
            let dsp = header_size() + b.text.len();
            &&& words[0] == header_size()
            &&& words[1] == dsp
            &&& header_size() <= p
            &&& p + 4 <= dsp
            &&& dsp <= words.len()
            &&& match items[k] {
                Item::Op(op, s1, s2, s3) => {
                    &&& opcode_of(words[p]) == Some(op)
                    &&& operand_reads_back(words, dsp, b.labels, s1, words[p + 1])
                    &&& operand_reads_back(words, dsp, b.labels, s2, words[p + 2])
                    &&& operand_reads_back(words, dsp, b.labels, s3, words[p + 3])
                    &&& string_reads_back(words, dsp, s1, words[p + 1])
                    &&& string_reads_back(words, dsp, s2, words[p + 2])
                    &&& string_reads_back(words, dsp, s3, words[p + 3])
                },
                _ => true,
            }
        }),
{
    let items = parse_items(src, tokens(src), 0).unwrap();
    lemma_statement_in_byte_code(items, k, memory);
    lemma_literals_valid(src);
    assert(item_valid(items[k]));
}

} // verus!
