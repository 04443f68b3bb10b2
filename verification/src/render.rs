//! Turning the guest list into markup: the list fragment, and the page
//! around it.

use crate::record::{record_views, RecordView, RsvpRecord};
use vstd::prelude::*;

verus! {

/// What stands in markup for one character of text: the five characters
/// that mean something in HTML become numeric references, every other
/// character stands for itself.
pub open spec fn escaped_char(c: char) -> Seq<char> {
    if c == '"' {
        "&#34;"@
    } else if c == '&' {
        "&#38;"@
    } else if c == '\'' {
        "&#39;"@
    } else if c == '<' {
        "&#60;"@
    } else if c == '>' {
        "&#62;"@
    } else {
        seq![c]
    }
}

/// A text with each character escaped for HTML.
pub open spec fn html_escaped(text: Seq<char>) -> Seq<char>
    decreases text.len(),
{
    if text.len() == 0 {
        Seq::empty()
    } else {
        html_escaped(text.drop_last()) + escaped_char(text.last())
    }
}

/// Escapes a text for HTML with askama's `Html` escaper
/// (`Escaper::write_escaped_str`). Trusted: the escaper replaces `"`, `&`,
/// `'`, `<` and `>` by `&#34;`, `&#38;`, `&#39;`, `&#60;` and `&#62;`, copies
/// everything else, and writing into a `String` does not fail.
#[verifier::external_body]
fn escape_html(text: &str) -> (out: String)
    ensures
        out@ == html_escaped(text@),
{
    let mut out = String::new();
    let _ = askama::filters::Escaper::write_escaped_str(&askama::filters::Html, &mut out, text);
    out
}

/// The markup that opens the list.
pub const LIST_OPEN: &'static str = "<ul id=\"rsvp-list\">\n";

/// The markup that closes the list.
pub const LIST_CLOSE: &'static str = "</ul>\n";

/// The markup that opens a list entry.
pub const ITEM_OPEN: &'static str = "<li>";

/// The end of the entry of a guest who attends.
pub const ITEM_ATTENDING: &'static str = ": attending</li>\n";

/// The end of the entry of a guest who does not attend.
pub const ITEM_ABSENT: &'static str = ": not attending</li>\n";

/// The page before the list: head, title and the form.
pub const PAGE_HEAD: &'static str =
    "<!DOCTYPE html>\n<html lang=\"en\">\n<head>\n<meta charset=\"utf-8\">\n<title>RSVP</title>\n\
<script src=\"/static/frames.js\" defer></script>\n</head>\n<body>\n<h1>RSVP</h1>\n\
<form method=\"post\" action=\"/rsvp\" data-target=\"rsvp-list\">\n\
<label>Name <input type=\"text\" name=\"name\" required></label>\n\
<label>Email <input type=\"email\" name=\"email\" required></label>\n\
<label>Attending <select name=\"attending\"><option value=\"yes\">yes</option>\
<option value=\"no\">no</option></select></label>\n\
<button type=\"submit\">Send</button>\n</form>\n";

/// The page after the list.
pub const PAGE_FOOT: &'static str = "</body>\n</html>\n";

/// The list entry of one record: the escaped name and the answer.
pub open spec fn item_markup(record: RecordView) -> Seq<char> {
    ITEM_OPEN@ + html_escaped(record.name) + (if record.attending {
        ITEM_ATTENDING@
    } else {
        ITEM_ABSENT@
    })
}

/// The entries of the records, one after the other.
pub open spec fn items_markup(records: Seq<RecordView>) -> Seq<char>
    decreases records.len(),
{
    if records.len() == 0 {
        Seq::empty()
    } else {
        items_markup(records.drop_last()) + item_markup(records.last())
    }
}

/// The list fragment: one entry for each record, in the order given.
pub open spec fn list_markup(records: Seq<RecordView>) -> Seq<char> {
    LIST_OPEN@ + items_markup(records) + LIST_CLOSE@
}

/// The full page: the list fragment between head and foot.
pub open spec fn page_markup(records: Seq<RecordView>) -> Seq<char> {
    PAGE_HEAD@ + list_markup(records) + PAGE_FOOT@
}

/// The page holds the list fragment as it is: what stands between head and
/// foot is `list_markup` of the same records, character for character.
pub proof fn lemma_page_embeds_list(records: Seq<RecordView>)
    ensures
        page_markup(records).len() == PAGE_HEAD@.len() + list_markup(records).len()
            + PAGE_FOOT@.len(),
        page_markup(records).subrange(
            PAGE_HEAD@.len() as int,
            (PAGE_HEAD@.len() + list_markup(records).len()) as int,
        ) == list_markup(records),
{
    assert(page_markup(records).subrange(
        PAGE_HEAD@.len() as int,
        (PAGE_HEAD@.len() + list_markup(records).len()) as int,
    ) =~= list_markup(records));
}

/// A record added at the end of the table adds its entry at the end of the
/// list and leaves the entries before it as they were.
pub proof fn lemma_new_entry_is_appended(records: Seq<RecordView>, record: RecordView)
    ensures
        items_markup(records.push(record)) == items_markup(records) + item_markup(record),
{
    assert(records.push(record).drop_last() =~= records);
}

/// Whether `c` can open or close a tag or an attribute value.
pub open spec fn is_markup_char(c: char) -> bool {
    c == '<' || c == '>' || c == '"' || c == '\''
}

/// Escaped text is inert: none of `<`, `>`, `"` and `'` is left in it.
pub proof fn lemma_escaped_is_inert(text: Seq<char>)
    ensures
        forall|k: int|
            0 <= k < html_escaped(text).len() ==> !is_markup_char(#[trigger] html_escaped(text)[k]),
    decreases text.len(),
{
    if text.len() > 0 {
        let front = html_escaped(text.drop_last());
        let tail = escaped_char(text.last());
        lemma_escaped_is_inert(text.drop_last());
        assert forall|j: int| 0 <= j < tail.len() implies !is_markup_char(#[trigger] tail[j]) by {
            reveal_strlit("&#34;");
            reveal_strlit("&#38;");
            reveal_strlit("&#39;");
            reveal_strlit("&#60;");
            reveal_strlit("&#62;");
        }
        assert forall|k: int| 0 <= k < html_escaped(text).len() implies !is_markup_char(
            #[trigger] html_escaped(text)[k],
        ) by {
            if k < front.len() {
                assert(html_escaped(text)[k] == front[k]);
            } else {
                assert(html_escaped(text)[k] == tail[k - front.len()]);
            }
        }
    }
}

/// Renders the list fragment.
pub fn render_list(records: &Vec<RsvpRecord>) -> (out: String)
    ensures
        out@ == list_markup(record_views(records@)),
{
    let ghost views = record_views(records@);
    let mut out: String = LIST_OPEN.to_owned();
    let mut i: usize = 0;
    while i < records.len()
        invariant
            i <= records.len(),
            views == record_views(records@),
            out@ == LIST_OPEN@ + items_markup(views.take(i as int)),
        decreases records.len() - i,
    {
        let name = escape_html(records[i].name.as_str());
        let ghost before = out@;
        out.append(ITEM_OPEN);
        out.append(name.as_str());
        if records[i].attending {
            out.append(ITEM_ATTENDING);
        } else {
            out.append(ITEM_ABSENT);
        }
        proof {
            assert(views.take(i + 1).drop_last() =~= views.take(i as int));
            assert(views.take(i + 1).last() == records@[i as int]@);
            assert(out@ =~= before + item_markup(views[i as int]));
        }
        i = i + 1;
    }
    assert(views.take(records.len() as int) =~= views);
    out.append(LIST_CLOSE);
    out
}

/// Renders the full page. The list in it is the fragment of `render_list`.
pub fn render_page(records: &Vec<RsvpRecord>) -> (out: String)
    ensures
        out@ == page_markup(record_views(records@)),
{
    let mut out: String = PAGE_HEAD.to_owned();
    let list = render_list(records);
    out.append(list.as_str());
    out.append(PAGE_FOOT);
    out
}

} // verus!
