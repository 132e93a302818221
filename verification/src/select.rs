use vstd::prelude::*;

use crate::model::EntryView;
use crate::model::FeedEntry;
use crate::style::italic;
use crate::style::italic_text;
use vstd::string::StringExecFns;

verus! {

/// At most this many entries are surfaced by one since-timestamp poll,
/// however many qualify.
pub const MAX_NEW_ITEMS: usize = 5;

/// The sentinel line reported when a poll found nothing new. It keeps a
/// quiet feed distinguishable from a failed one, which is absent from
/// the report altogether.
pub open spec fn nothing_new() -> Seq<char> {
    "Nothing new here..."@
}

/// The date an entry is judged by: its update time if it has one, else
/// its publication time; an entry with neither cannot be judged at all.
pub open spec fn entry_date(e: EntryView) -> Option<int> {
    if e.updated is Some {
        e.updated
    } else {
        e.published
    }
}

/// One rendered report line: the entry's title in italics, then its
/// link on an indented line of its own.
pub open spec fn rendered(e: EntryView) -> Seq<char> {
    italic_text(e.title) + " \n\t  "@ + e.link + "\n"@
}

/// Every entry of a selection, rendered in order.
pub open spec fn rendered_all(s: Seq<EntryView>) -> Seq<Seq<char>> {
    s.map_values(|e: EntryView| rendered(e))
}

/// The first `n` entries in document order, or all of them if the
/// document has fewer.
pub open spec fn top_selection(entries: Seq<EntryView>, n: int) -> Seq<EntryView> {
    if n <= entries.len() {
        entries.take(n)
    } else {
        entries
    }
}

/// What a top-N request reports: the first `n` entries, each rendered,
/// with no date logic at all.
pub open spec fn top_items(entries: Seq<EntryView>, n: int) -> Seq<Seq<char>> {
    rendered_all(top_selection(entries, n))
}

/// Prefix-stop selection: walk the entries in document order, pass over
/// entries that carry no date, keep every dated entry strictly newer
/// than `reference`, and stop at the first dated entry that is not
/// newer. Feeds are assumed to be ordered newest-first; on a feed that
/// is not, entries after the first stale one are never reached, by
/// design.
pub open spec fn newer_prefix(entries: Seq<EntryView>, reference: int) -> Seq<EntryView>
    decreases entries.len(),
{
    if entries.len() == 0 {
        Seq::empty()
    } else {
        match entry_date(entries[0]) {
            None => newer_prefix(entries.drop_first(), reference),
            Some(d) => if d > reference {
                seq![entries[0]] + newer_prefix(entries.drop_first(), reference)
            } else {
                Seq::empty()
            },
        }
    }
}

/// A selection cut down to the reporting cap.
pub open spec fn capped(s: Seq<EntryView>) -> Seq<EntryView> {
    if s.len() <= MAX_NEW_ITEMS {
        s
    } else {
        s.take(MAX_NEW_ITEMS as int)
    }
}

/// What a since-timestamp poll selects for one feed, before the
/// nothing-new fallback: the newer prefix, capped, rendered.
pub open spec fn since_selection(entries: Seq<EntryView>, reference: int) -> Seq<Seq<char>> {
    rendered_all(capped(newer_prefix(entries, reference)))
}

/// What a since-timestamp poll reports for one feed: the selection, or
/// the single nothing-new line when the selection is empty.
pub open spec fn since_items(entries: Seq<EntryView>, reference: int) -> Seq<Seq<char>> {
    let sel = since_selection(entries, reference);
    if sel.len() == 0 {
        seq![nothing_new()]
    } else {
        sel
    }
}

/// Render one selected entry as a report line.
pub fn render_entry(title: &str, link: &str) -> (r: String)
    ensures
        r@ == italic_text(title@) + " \n\t  "@ + link@ + "\n"@,
{
    let mut r = italic(title);
    r.append(" \n\t  ");
    r.append(link);
    r.append("\n");
    r
}

/// Top-N selection: the first `num` entries of the document, rendered
/// in document order. `num` may be zero, which selects nothing, and may
/// exceed the document's length, which selects everything.
pub fn select_top(entries: &Vec<FeedEntry>, num: usize) -> (items: Vec<String>)
    ensures
        items.deep_view() == top_items(entries.deep_view(), num as int),
{
    let n: usize = if num <= entries.len() {
        num
    } else {
        entries.len()
    };
    let mut items: Vec<String> = Vec::new();
    for i in 0..n
        invariant
            n <= entries@.len(),
            n as int == if num <= entries@.len() {
                num as int
            } else {
                entries@.len() as int
            },
            items.deep_view() =~= rendered_all(entries.deep_view().take(i as int)),
    {
        let ghost pre = items.deep_view();
        let line = render_entry(&entries[i].title, &entries[i].link);
        items.push(line);
        proof {
            let evs = entries.deep_view();
            assert(items.deep_view() =~= pre.push(line@));
            assert(evs.take(i + 1) =~= evs.take(i as int).push(evs[i as int]));
            assert(rendered_all(evs.take(i + 1)) =~= rendered_all(evs.take(i as int)).push(
                rendered(evs[i as int]),
            ));
        }
    }
    proof {
        assert(entries.deep_view().take(n as int) =~= top_selection(
            entries.deep_view(),
            num as int,
        ));
    }
    items
}

/// Since-timestamp selection: the newer prefix of the document relative
/// to `reference` (seconds since the Unix epoch), capped at
/// `MAX_NEW_ITEMS` entries and rendered, or the single nothing-new line
/// when no entry qualifies.
pub fn select_since(entries: &Vec<FeedEntry>, reference: i64) -> (items: Vec<String>)
    ensures
        items.deep_view() == since_items(entries.deep_view(), reference as int),
{
    let ghost evs = entries.deep_view();
    let ghost refi: int = reference as int;
    let mut items: Vec<String> = Vec::new();
    let ghost mut sel: Seq<EntryView> = Seq::empty();
    let mut i: usize = 0;
    proof {
        assert(evs.skip(0) =~= evs);
        assert(sel + newer_prefix(evs, refi) =~= newer_prefix(evs, refi));
    }
    loop
        invariant
            i <= entries@.len(),
            evs == entries.deep_view(),
            refi == reference as int,
            sel.len() == items@.len(),
            sel.len() <= MAX_NEW_ITEMS,
            items.deep_view() == rendered_all(sel),
            newer_prefix(evs, refi) == sel + newer_prefix(evs.skip(i as int), refi),
        ensures
            capped(newer_prefix(evs, refi)) == sel,
            items.deep_view() == rendered_all(sel),
        decreases entries@.len() - i,
    {
        if i >= entries.len() {
            proof {
                assert(evs.skip(i as int) =~= Seq::<EntryView>::empty());
                assert(sel + newer_prefix(evs.skip(i as int), refi) =~= sel);
                assert(capped(sel) == sel);
            }
            break;
        }
        if items.len() >= MAX_NEW_ITEMS {
            proof {
                let rest = newer_prefix(evs.skip(i as int), refi);
                assert(capped(sel + rest) =~= sel);
            }
            break;
        }
        let e = &entries[i];
        let date: Option<i64> = if e.updated.is_some() {
            e.updated
        } else {
            e.published
        };
        proof {
            assert(evs.skip(i as int).len() > 0);
            assert(evs.skip(i as int)[0] == evs[i as int]);
            assert(evs.skip(i as int).drop_first() =~= evs.skip(i as int + 1));
            assert(entry_date(evs[i as int]) == match date {
                Some(d) => Some(d as int),
                None => None::<int>,
            });
        }
        match date {
            None => {
                proof {
                    assert(newer_prefix(evs.skip(i as int), refi) == newer_prefix(
                        evs.skip(i as int + 1),
                        refi,
                    ));
                }
                i += 1;
            },
            Some(d) => {
                if d > reference {
                    let ghost pre = items.deep_view();
                    let line = render_entry(&e.title, &e.link);
                    items.push(line);
                    proof {
                        assert(newer_prefix(evs.skip(i as int), refi) == seq![evs[i as int]]
                            + newer_prefix(evs.skip(i as int + 1), refi));
                        assert(sel + (seq![evs[i as int]] + newer_prefix(
                            evs.skip(i as int + 1),
                            refi,
                        )) =~= sel.push(evs[i as int]) + newer_prefix(evs.skip(i as int + 1), refi));
                        sel = sel.push(evs[i as int]);
                        assert(items.deep_view() =~= pre.push(line@));
                        assert(rendered_all(sel) =~= rendered_all(sel.drop_last()).push(
                            rendered(evs[i as int]),
                        ));
                    }
                    i += 1;
                } else {
                    proof {
                        assert(newer_prefix(evs.skip(i as int), refi) =~= Seq::<
                            EntryView,
                        >::empty());
                        assert(sel + newer_prefix(evs.skip(i as int), refi) =~= sel);
                        assert(capped(sel) == sel);
                    }
                    break;
                }
            },
        }
    }
    if items.len() == 0 {
        let line = "Nothing new here...".to_owned();
        items.push(line);
        proof {
            assert(since_selection(evs, refi) == rendered_all(sel));
            assert(rendered_all(sel).len() == 0);
            assert(items.deep_view() =~= seq![nothing_new()]);
        }
    }
    items
}

} // verus!
