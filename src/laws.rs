use vstd::prelude::*;
use crate::error::ScanError;
use crate::scanner::{eof, lemma_step, result_view, scan_from, scan_spec, step};
use crate::token::{Token, TokenKind};

verus! {

/// No token produced from index `i` on is an end-of-input token; each has a line between
/// `line` and the line reached, and the lines never decrease.
proof fn lemma_scan_from_shape(src: Seq<char>, i: int, line: nat)
    ensures
        ({
            let (t, e, last) = scan_from(src, i, line);
            &&& line <= last
            &&& forall|k: int| 0 <= k < t.len() ==> (#[trigger] t[k]).kind != TokenKind::Eof
            &&& forall|k: int| 0 <= k < t.len() ==> line <= (#[trigger] t[k]).line <= last
            &&& forall|a: int, b: int| 0 <= a <= b < t.len() ==> t[a].line <= t[b].line
        }),
    decreases src.len() - i,
{
    if 0 <= i < src.len() {
        lemma_step(src, i, line);
        let st = step(src, i, line);
        lemma_scan_from_shape(src, st.next, st.line);
        let rest = scan_from(src, st.next, st.line);
        let t = scan_from(src, i, line).0;
        match st.token {
            Some(tok) => {
                assert(tok.kind != TokenKind::Eof);
                assert(tok.line == st.line);
                assert(t == seq![tok] + rest.0);
                assert forall|k: int| 0 <= k < t.len() implies (#[trigger] t[k]).kind != TokenKind::Eof by {
                    if k > 0 {
                        assert(t[k] == rest.0[k - 1]);
                    }
                }
                assert forall|k: int| 0 <= k < t.len() implies line <= (#[trigger] t[k]).line <= rest.2 by {
                    if k > 0 {
                        assert(t[k] == rest.0[k - 1]);
                    }
                }
                assert forall|a: int, b: int| 0 <= a <= b < t.len() implies t[a].line <= t[b].line by {
                    if a > 0 {
                        assert(t[a] == rest.0[a - 1]);
                    }
                    if b > 0 {
                        assert(t[b] == rest.0[b - 1]);
                    }
                }
            },
            None => {
                assert(t =~= rest.0);
            },
        }
    }
}

/// Scanning the same source text twice gives identical results: a result that meets the
/// contract of a scan of `src` is unique.
pub proof fn lemma_scan_idempotent(
    src: Seq<char>,
    r1: Result<Vec<Token>, Vec<ScanError>>,
    r2: Result<Vec<Token>, Vec<ScanError>>,
)
    requires
        result_view(r1) == scan_spec(src),
        result_view(r2) == scan_spec(src),
    ensures
        result_view(r1) == result_view(r2),
{
}

/// A scan never comes back empty: either a non-empty token sequence whose last token, and
/// only that one, marks the end of input, or a non-empty sequence of errors.
pub proof fn lemma_scan_total(src: Seq<char>)
    ensures
        match scan_spec(src) {
            Ok(t) => {
                &&& t.len() > 0
                &&& t.last().kind == TokenKind::Eof
                &&& forall|k: int| 0 <= k < t.len() - 1 ==> (#[trigger] t[k]).kind != TokenKind::Eof
            },
            Err(e) => e.len() > 0,
        },
{
    lemma_scan_from_shape(src, 0, 1);
    let (t, e, last) = scan_from(src, 0, 1);
    if let Ok(all) = scan_spec(src) {
        assert(all =~= t.push(eof(last)));
        assert forall|k: int| 0 <= k < all.len() - 1 implies (#[trigger] all[k]).kind != TokenKind::Eof by {
            assert(all[k] == t[k]);
        }
    }
}

/// The tokens of a successful scan are in non-decreasing line order, and the first is on
/// line 1 or later.
pub proof fn lemma_scan_lines_ordered(src: Seq<char>)
    ensures
        scan_spec(src) is Ok ==> {
            let t = scan_spec(src)->Ok_0;
            &&& forall|k: int| 0 <= k < t.len() ==> 1 <= (#[trigger] t[k]).line
            &&& forall|a: int, b: int| 0 <= a <= b < t.len() ==> t[a].line <= t[b].line
        },
{
    lemma_scan_from_shape(src, 0, 1);
    let (t, e, last) = scan_from(src, 0, 1);
    if let Ok(all) = scan_spec(src) {
        assert(all =~= t.push(eof(last)));
        assert forall|a: int, b: int| 0 <= a <= b < all.len() implies all[a].line <= all[b].line by {
            if b < t.len() {
                assert(all[a] == t[a]);
                assert(all[b] == t[b]);
            } else if a < t.len() {
                assert(all[a] == t[a]);
            }
        }
        assert forall|k: int| 0 <= k < all.len() implies 1 <= (#[trigger] all[k]).line by {
            if k < t.len() {
                assert(all[k] == t[k]);
            }
        }
    }
}

} // verus!
