use vstd::prelude::*;
use vstd::string::*;

verus! {

/// The given words joined with single spaces between them.
pub open spec fn joined(ws: Seq<Seq<char>>) -> Seq<char>
    decreases ws.len(),
{
    if ws.len() == 0 {
        Seq::empty()
    } else if ws.len() == 1 {
        ws[0]
    } else {
        joined(ws.drop_last()) + seq![' '] + ws.last()
    }
}

/// Join words with single spaces, then append a newline unless it
/// is omitted: the text an echo of the words prints.
pub fn join_words(words: &Vec<String>, omit_newline: bool) -> (r: String)
    ensures
        r@ == joined(words.deep_view()) + if omit_newline {
            Seq::<char>::empty()
        } else {
            seq!['\n']
        },
{
    let ghost ws = words.deep_view();
    let mut r = String::new();
    let mut i: usize = 0;
    while i < words.len()
        invariant
            ws == words.deep_view(),
            i <= words@.len(),
            r@ == joined(ws.take(i as int)),
        decreases words@.len() - i,
    {
        if i > 0 {
            r.append(" ");
            proof {
                reveal_strlit(" ");
            }
        }
        r.append(words[i].as_str());
        proof {
            assert(ws.take((i + 1) as int).drop_last() =~= ws.take(i as int));
            assert(ws.take((i + 1) as int).last() == ws[i as int]);
            if i > 0 {
                assert(r@ =~= joined(ws.take((i + 1) as int)));
            } else {
                assert(r@ =~= joined(ws.take(1)));
            }
        }
        i = i + 1;
    }
    proof {
        assert(ws.take(words@.len() as int) =~= ws);
    }
    if !omit_newline {
        r.append("\n");
        proof {
            reveal_strlit("\n");
            assert(r@ =~= joined(ws) + seq!['\n']);
        }
    }
    r
}

} // verus!
