use vstd::prelude::*;

use crate::model::ProcessedFeed;
use crate::model::ProcessedFeedView;
use crate::style::bold;
use crate::style::bold_text;
use vstd::string::StringExecFns;

verus! {

/// Items joined with a separator between neighbours, none at the ends.
pub open spec fn joined(items: Seq<Seq<char>>, sep: Seq<char>) -> Seq<char>
    decreases items.len(),
{
    if items.len() == 0 {
        Seq::empty()
    } else if items.len() == 1 {
        items[0]
    } else {
        items[0] + sep + joined(items.drop_first(), sep)
    }
}

/// Joining one more item appends a separator and the item, unless it is
/// the first.
proof fn lemma_joined_push(s: Seq<Seq<char>>, x: Seq<char>, sep: Seq<char>)
    ensures
        joined(s.push(x), sep) == if s.len() == 0 {
            x
        } else {
            joined(s, sep) + sep + x
        },
    decreases s.len(),
{
    if s.len() == 0 {
        assert(s.push(x).len() == 1);
        assert(s.push(x)[0] == x);
    } else if s.len() == 1 {
        assert(s.push(x)[0] == s[0]);
        assert(s.push(x).drop_first() =~= seq![x]);
        assert(joined(seq![x], sep) == x);
    } else {
        assert(s.push(x).drop_first() =~= s.drop_first().push(x));
        lemma_joined_push(s.drop_first(), x, sep);
        assert(s.push(x)[0] == s[0]);
        assert((s[0] + sep + (joined(s.drop_first(), sep) + sep + x)) =~= ((s[0] + sep + joined(
            s.drop_first(),
            sep,
        )) + sep + x));
    }
}

/// The whole report block for one feed, as the CLI prints it: a book
/// mark, the feed's title in bold, then each item on an indented line.
pub open spec fn report_text(v: ProcessedFeedView) -> Seq<char> {
    "📖 "@ + bold_text(v.title) + "\n\t"@ + joined(v.items, "\n\t"@)
}

impl ProcessedFeed {
    /// Render this report as one printable block.
    pub fn render(&self) -> (r: String)
        ensures
            r@ == report_text(self@),
    {
        let mut r = "📖 ".to_owned();
        let b = bold(&self.title);
        r.append(b.as_str());
        r.append("\n\t");
        let ghost head = "📖 "@ + bold_text(self.title@) + "\n\t"@;
        let ghost sep = "\n\t"@;
        let ghost dv = self.items.deep_view();
        proof {
            assert(r@ == head);
            assert(head + joined(dv.take(0), sep) =~= head);
        }
        let n: usize = self.items.len();
        for k in 0..n
            invariant
                n == self.items@.len(),
                dv == self.items.deep_view(),
                head == "📖 "@ + bold_text(self.title@) + "\n\t"@,
                sep == "\n\t"@,
                r@ == head + joined(dv.take(k as int), sep),
        {
            let ghost pre = r@;
            if k > 0 {
                r.append("\n\t");
            }
            let it = &self.items[k];
            r.append(it.as_str());
            proof {
                assert(dv.take(k + 1) =~= dv.take(k as int).push(dv[k as int]));
                lemma_joined_push(dv.take(k as int), dv[k as int], sep);
                if k == 0 {
                    assert(dv.take(0) =~= Seq::<Seq<char>>::empty());
                    assert(pre + dv[0] =~= head + joined(dv.take(1), sep));
                } else {
                    assert((head + joined(dv.take(k as int), sep)) + sep + dv[k as int] =~= head
                        + (joined(dv.take(k as int), sep) + sep + dv[k as int]));
                }
            }
        }
        proof {
            assert(dv.take(n as int) =~= dv);
        }
        r
    }
}

} // verus!
