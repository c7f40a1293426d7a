//! String literals of a UTF-8 source stay UTF-8 through assembly.
use vstd::prelude::*;
use vstd::utf8::*;

use crate::assembler::grammar::{
    lexeme, operand, operands, padded, parse_items, statement, tokens, tokens_from, Item,
    Operand, Slot,
};
use crate::assembler::scanner::{lemma_scan, pos_ok, scan, start_pos, ScanPos};
use crate::assembler::token::{TokenModel, TokenType};
use crate::text::{lemma_quoted_valid, lemma_unescape_valid};

verus! {

/// A string token of `src` starts and ends with a double quote.
pub open spec fn quoted(src: Seq<u8>, t: TokenModel) -> bool {
    t.token_type == TokenType::String ==> {
        &&& t.start + 2 <= t.end <= src.len()
        &&& src[t.start as int] == 34
        &&& src[t.end - 1] == 34
    }
}

/// Every string token of the stream is quoted.
pub open spec fn all_quoted(src: Seq<u8>, toks: Seq<TokenModel>) -> bool {
    forall|i: int| 0 <= i < toks.len() ==> quoted(src, #[trigger] toks[i])
}

/// A string operand holds valid UTF-8.
pub open spec fn slot_valid(s: Slot) -> bool {
    s matches Slot::Text(t) ==> valid_utf8(t)
}

/// Every string operand of a statement holds valid UTF-8.
pub open spec fn item_valid(item: Item) -> bool {
    item matches Item::Op(_, s1, s2, s3) ==> slot_valid(s1) && slot_valid(s2) && slot_valid(s3)
}

proof fn lemma_tokens_quoted(src: Seq<u8>, p: ScanPos)
    ensures
        all_quoted(src, tokens_from(src, p)),
    decreases src.len() - p.current,
{
    if pos_ok(src, p) {
        lemma_scan(src, p);
        let (t, q) = scan(src, p);
        let ts = tokens_from(src, p);
        if !(t.token_type == TokenType::Eof || t.token_type == TokenType::Error) {
            lemma_tokens_quoted(src, q);
            assert forall|i: int| 0 <= i < ts.len() implies quoted(src, #[trigger] ts[i]) by {
                if i > 0 {
                    assert(ts[i] == tokens_from(src, q)[i - 1]);
                }
            }
        }
    }
}

proof fn lemma_operand_valid(src: Seq<u8>, t: TokenModel, o: Operand)
    requires
        valid_utf8(src),
        quoted(src, t),
    ensures
        operand(src, t, o) matches Some(s) ==> slot_valid(s),
{
    if t.token_type == TokenType::String {
        let w = lexeme(src, t);
        assert(w.subrange(1, w.len() - 1) =~= src.subrange(t.start + 1int, t.end - 1));
        lemma_quoted_valid(src, t.start as int, t.end as int);
        lemma_unescape_valid(src.subrange(t.start + 1int, t.end - 1));
    }
}

proof fn lemma_operands_valid(
    src: Seq<u8>,
    toks: Seq<TokenModel>,
    i: int,
    shape: Seq<Operand>,
    n: int,
)
    requires
        valid_utf8(src),
        all_quoted(src, toks),
        0 <= i,
    ensures
        operands(src, toks, i, shape, n) matches Some(ss) ==> forall|m: int|
            0 <= m < ss.len() ==> slot_valid(#[trigger] ss[m]),
    decreases shape.len() - n,
{
    if 0 <= n < shape.len() {
        let j = i + 1 + 2 * n;
        if 0 <= j < toks.len() {
            lemma_operand_valid(src, toks[j], shape[n]);
            lemma_operands_valid(src, toks, i, shape, n + 1);
            match operands(src, toks, i, shape, n) {
                Some(ss) => {
                    let s = operand(src, toks[j], shape[n]).unwrap();
                    let rest = operands(src, toks, i, shape, n + 1).unwrap();
                    assert(ss == seq![s] + rest);
                    assert forall|m: int| 0 <= m < ss.len() implies slot_valid(#[trigger] ss[m]) by {
                        if m > 0 {
                            assert(ss[m] == rest[m - 1]);
                        }
                    }
                },
                None => {},
            }
        }
    }
}

proof fn lemma_statement_valid(src: Seq<u8>, toks: Seq<TokenModel>, i: int)
    requires
        valid_utf8(src),
        all_quoted(src, toks),
        0 <= i < toks.len(),
    ensures
        statement(src, toks, i) matches Some((item, _)) ==> item_valid(item),
{
    let sh = crate::assembler::grammar::shape(toks[i].token_type);
    lemma_operands_valid(src, toks, i, sh, 0);
    match operands(src, toks, i, sh, 0) {
        Some(ss) => {
            let p = padded(ss);
            assert forall|m: int| 0 <= m < p.len() implies slot_valid(#[trigger] p[m]) by {
                if m < ss.len() {
                    assert(p[m] == ss[m]);
                }
            }
            if p.len() >= 3 {
                assert(slot_valid(p[0]) && slot_valid(p[1]) && slot_valid(p[2]));
            }
        },
        None => {},
    }
}

proof fn lemma_parse_items_valid(src: Seq<u8>, toks: Seq<TokenModel>, i: int)
    requires
        valid_utf8(src),
        all_quoted(src, toks),
    ensures
        parse_items(src, toks, i) matches Some(items) ==> forall|k: int|
            0 <= k < items.len() ==> item_valid(#[trigger] items[k]),
    decreases toks.len() - i,
{
    if 0 <= i < toks.len() {
        let t = toks[i];
        if t.token_type == TokenType::Eof {
        } else if t.token_type == TokenType::Label {
            lemma_parse_items_valid(src, toks, i + 1);
            match parse_items(src, toks, i) {
                Some(items) => {
                    let rest = parse_items(src, toks, i + 1).unwrap();
                    assert forall|k: int| 0 <= k < items.len() implies item_valid(
                        #[trigger] items[k],
                    ) by {
                        if k > 0 {
                            assert(items[k] == rest[k - 1]);
                        }
                    }
                },
                None => {},
            }
        } else {
            lemma_statement_valid(src, toks, i);
            match statement(src, toks, i) {
                Some((item, j)) => {
                    if i < j <= toks.len() {
                        lemma_parse_items_valid(src, toks, j);
                        match parse_items(src, toks, i) {
                            Some(items) => {
                                let rest = parse_items(src, toks, j).unwrap();
                                assert forall|k: int| 0 <= k < items.len() implies item_valid(
                                    #[trigger] items[k],
                                ) by {
                                    if k > 0 {
                                        assert(items[k] == rest[k - 1]);
                                    }
                                }
                            },
                            None => {},
                        }
                    }
                },
                None => {},
            }
        }
    }
}

/// Each string operand of the statements of a UTF-8 source is UTF-8: the
/// text between the quotes of a literal, with its escapes replaced.
pub proof fn lemma_literals_valid(src: Seq<u8>)
    requires
        valid_utf8(src),
    ensures
        parse_items(src, tokens(src), 0) matches Some(items) ==> forall|k: int|
            0 <= k < items.len() ==> item_valid(#[trigger] items[k]),
{
    lemma_tokens_quoted(src, start_pos());
    lemma_parse_items_valid(src, tokens(src), 0);
}

} // verus!
