//! Directory listings: rendering the immediate children of a directory as a
//! minimal hyperlinked document.

use vstd::prelude::*;
use vstd::string::*;

verus! {

/// The list item rendered for one directory entry: a link to the entry,
/// labeled with its name.
pub open spec fn spec_listing_item(name: Seq<char>) -> Seq<char> {
    "<li><a href=\""@ + name
        + "\" style=\"text-decoration:none; font-size:1.1em; display:block;\">"@ + name
        + "</a></li>"@
}

/// The list items for a sequence of entries, in order.
pub open spec fn spec_listing_items(names: Seq<Seq<char>>) -> Seq<char>
    decreases names.len(),
{
    if names.len() == 0 {
        Seq::empty()
    } else {
        spec_listing_item(names[0]) + spec_listing_items(names.skip(1))
    }
}

/// The whole listing document: the items wrapped in an unordered list.
pub open spec fn spec_listing(names: Seq<Seq<char>>) -> Seq<char> {
    "<ul>"@ + spec_listing_items(names) + "</ul>"@
}

/// The items of a concatenation are the concatenated items.
pub proof fn lemma_listing_items_append(s1: Seq<Seq<char>>, s2: Seq<Seq<char>>)
    ensures
        spec_listing_items(s1 + s2) == spec_listing_items(s1) + spec_listing_items(s2),
    decreases s1.len(),
{
    if s1.len() == 0 {
        assert(s1 + s2 =~= s2);
        assert(spec_listing_items(s1) + spec_listing_items(s2) =~= spec_listing_items(s2));
    } else {
        assert((s1 + s2).skip(1) =~= s1.skip(1) + s2);
        lemma_listing_items_append(s1.skip(1), s2);
        assert(spec_listing_item((s1 + s2)[0]) + (spec_listing_items(s1.skip(1))
            + spec_listing_items(s2)) =~= (spec_listing_item(s1[0]) + spec_listing_items(
            s1.skip(1),
        )) + spec_listing_items(s2));
    }
}

proof fn lemma_listing_items_snoc(names: Seq<Seq<char>>, k: int)
    requires
        0 <= k < names.len(),
    ensures
        spec_listing_items(names.take(k + 1)) == spec_listing_items(names.take(k))
            + spec_listing_item(names[k]),
{
    assert(names.take(k + 1) =~= names.take(k) + seq![names[k]]);
    lemma_listing_items_append(names.take(k), seq![names[k]]);
    assert(seq![names[k]].skip(1) =~= Seq::<Seq<char>>::empty());
    assert(seq![names[k]][0] == names[k]);
    assert(spec_listing_items(seq![names[k]]) == spec_listing_item(names[k]) + spec_listing_items(
        Seq::<Seq<char>>::empty(),
    ));
    assert(spec_listing_item(names[k]) + spec_listing_items(Seq::<Seq<char>>::empty())
        =~= spec_listing_item(names[k]));
}

/// Renders the listing for the given entry names, in the given order.
pub fn directory_listing(names: &Vec<String>) -> (r: String)
    ensures
        r@ == spec_listing(names.deep_view()),
{
    let mut out = String::from_str("<ul>");
    let mut i: usize = 0;
    proof {
        assert(names.deep_view().take(0) =~= Seq::<Seq<char>>::empty());
        assert(out@ =~= "<ul>"@ + spec_listing_items(names.deep_view().take(0)));
    }
    while i < names.len()
        invariant
            i <= names@.len(),
            out@ == "<ul>"@ + spec_listing_items(names.deep_view().take(i as int)),
        decreases names@.len() - i,
    {
        let name: &String = &names[i];
        proof {
            assert(names.deep_view()[i as int] == names@[i as int]@);
        }
        out.append("<li><a href=\"");
        out.append(name.as_str());
        out.append("\" style=\"text-decoration:none; font-size:1.1em; display:block;\">");
        out.append(name.as_str());
        out.append("</a></li>");
        proof {
            lemma_listing_items_snoc(names.deep_view(), i as int);
        }
        i = i + 1;
    }
    proof {
        assert(names.deep_view().take(names@.len() as int) =~= names.deep_view());
    }
    out.append("</ul>");
    out
}

/// Law: the rendered document carries one link item for every immediate
/// child handed to it, each child's item standing between the items of the
/// children before and after it, inside the list markers and nothing else.
pub proof fn lemma_listing_mentions_every_child(names: Seq<Seq<char>>, k: int)
    requires
        0 <= k < names.len(),
    ensures
        spec_listing(names) == "<ul>"@ + spec_listing_items(names.take(k)) + spec_listing_item(
            names[k],
        ) + spec_listing_items(names.skip(k + 1)) + "</ul>"@,
{
    assert(names =~= names.take(k + 1) + names.skip(k + 1));
    lemma_listing_items_append(names.take(k + 1), names.skip(k + 1));
    lemma_listing_items_snoc(names, k);
    assert("<ul>"@ + (spec_listing_items(names.take(k + 1)) + spec_listing_items(
        names.skip(k + 1),
    )) + "</ul>"@ =~= "<ul>"@ + spec_listing_items(names.take(k)) + spec_listing_item(names[k])
        + spec_listing_items(names.skip(k + 1)) + "</ul>"@);
}

} // verus!
