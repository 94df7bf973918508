//! The rewrite of a note's metadata into Hugo's fields.

use vstd::prelude::*;
use crate::error::HookError;
use crate::metadata::{
    has_key, is_unset, keys_distinct, lemma_lookup_present, lemma_with, lemma_without, lookup, with, without, Entry, Frontmatter,
    MetaValue,
};

verus! {

pub open spec fn key_title() -> Seq<char> {
    "title"@
}

pub open spec fn key_alias() -> Seq<char> {
    "alias"@
}

pub open spec fn key_aliases() -> Seq<char> {
    "aliases"@
}

pub open spec fn key_created() -> Seq<char> {
    "created"@
}

pub open spec fn key_date() -> Seq<char> {
    "date"@
}

pub open spec fn key_modified() -> Seq<char> {
    "modified"@
}

pub open spec fn key_lastmod() -> Seq<char> {
    "lastmod"@
}

pub open spec fn key_summary() -> Seq<char> {
    "summary"@
}

pub open spec fn key_publish() -> Seq<char> {
    "publish"@
}

pub open spec fn key_draft() -> Seq<char> {
    "draft"@
}

pub open spec fn key_id() -> Seq<char> {
    "id"@
}

pub open spec fn key_url() -> Seq<char> {
    "url"@
}

/// The keys the rewrite touches are all different.
pub proof fn lemma_keys_differ()
    ensures
        key_title() != key_alias(),
        key_title() != key_aliases(),
        key_title() != key_created(),
        key_title() != key_date(),
        key_title() != key_modified(),
        key_title() != key_lastmod(),
        key_title() != key_summary(),
        key_title() != key_publish(),
        key_title() != key_draft(),
        key_title() != key_id(),
        key_title() != key_url(),
        key_alias() != key_aliases(),
        key_created() != key_date(),
        key_modified() != key_lastmod(),
        key_modified() != key_created(),
        key_modified() != key_date(),
        key_lastmod() != key_created(),
        key_lastmod() != key_date(),
        key_summary() != key_alias(),
        key_summary() != key_aliases(),
        key_summary() != key_created(),
        key_summary() != key_date(),
        key_summary() != key_modified(),
        key_summary() != key_lastmod(),
        key_summary() != key_publish(),
        key_summary() != key_draft(),
        key_summary() != key_id(),
        key_summary() != key_url(),
        key_publish() != key_alias(),
        key_publish() != key_aliases(),
        key_publish() != key_created(),
        key_publish() != key_date(),
        key_publish() != key_modified(),
        key_publish() != key_lastmod(),
        key_publish() != key_draft(),
        key_publish() != key_id(),
        key_publish() != key_url(),
        key_id() != key_alias(),
        key_id() != key_aliases(),
        key_id() != key_created(),
        key_id() != key_date(),
        key_id() != key_modified(),
        key_id() != key_lastmod(),
        key_id() != key_draft(),
        key_id() != key_url(),
        key_url() != key_alias(),
        key_url() != key_aliases(),
        key_url() != key_created(),
        key_url() != key_modified(),
        key_url() != key_draft(),
        key_draft() != key_alias(),
        key_draft() != key_aliases(),
        key_draft() != key_created(),
        key_draft() != key_modified(),
        key_date() != key_alias(),
        key_date() != key_aliases(),
        key_lastmod() != key_alias(),
        key_lastmod() != key_aliases(),
        key_created() != key_alias(),
        key_created() != key_aliases(),
        key_modified() != key_alias(),
        key_modified() != key_aliases(),
        key_draft() != key_date(),
        key_draft() != key_lastmod(),
        key_url() != key_date(),
        key_url() != key_lastmod(),
{
    reveal_strlit("title");
    reveal_strlit("alias");
    reveal_strlit("aliases");
    reveal_strlit("created");
    reveal_strlit("date");
    reveal_strlit("modified");
    reveal_strlit("lastmod");
    reveal_strlit("summary");
    reveal_strlit("publish");
    reveal_strlit("draft");
    reveal_strlit("id");
    reveal_strlit("url");
    assert(key_title()[0] == 't');
    assert(key_alias()[0] == 'a');
    assert(key_aliases().len() == 7);
    assert(key_alias().len() == 5);
    assert(key_created()[0] == 'c');
    assert(key_date()[0] == 'd');
    assert(key_date().len() == 4);
    assert(key_modified()[0] == 'm');
    assert(key_lastmod()[0] == 'l');
    assert(key_summary()[0] == 's');
    assert(key_publish()[0] == 'p');
    assert(key_draft()[0] == 'd');
    assert(key_draft().len() == 5);
    assert(key_id()[0] == 'i');
    assert(key_url()[0] == 'u');
}

/// A missing or null title is replaced by `title`, placed last.
pub open spec fn with_title<V>(s: Seq<Entry<V>>, title: String) -> Seq<Entry<V>> {
    if is_unset(lookup(s, key_title())) {
        with(without(s, key_title()), key_title(), MetaValue::Str(title))
    } else {
        s
    }
}

/// `alias` and `aliases` taken out.
pub open spec fn without_aliases<V>(s: Seq<Entry<V>>) -> Seq<Entry<V>> {
    without(without(s, key_alias()), key_aliases())
}

/// The value under `from` moved to `to`; a missing or null one becomes
/// the text `fallback`.
pub open spec fn renamed_stamp<V>(
    s: Seq<Entry<V>>,
    from: Seq<char>,
    to: Seq<char>,
    fallback: String,
) -> Seq<Entry<V>> {
    let v = if is_unset(lookup(s, from)) {
        MetaValue::Str(fallback)
    } else {
        lookup(s, from)->0
    };
    with(without(s, from), to, v)
}

/// A null `summary` taken out.
pub open spec fn pruned_summary<V>(s: Seq<Entry<V>>) -> Seq<Entry<V>> {
    if lookup(s, key_summary()) == Some(MetaValue::<V>::Null) {
        without(s, key_summary())
    } else {
        s
    }
}

/// A boolean `publish` moved to `draft`.
pub open spec fn publish_as_draft<V>(s: Seq<Entry<V>>) -> Seq<Entry<V>> {
    match lookup(s, key_publish()) {
        Some(MetaValue::Bool(b)) => with(without(s, key_publish()), key_draft(), MetaValue::Bool(b)),
        _ => s,
    }
}

/// The value under `id` moved to `url`.
pub open spec fn id_as_url<V>(s: Seq<Entry<V>>) -> Seq<Entry<V>> {
    with(without(s, key_id()), key_url(), lookup(s, key_id())->0)
}

/// The whole rewrite, step after step.
pub open spec fn hugo_normalized<V>(
    s: Seq<Entry<V>>,
    title: String,
    created_text: String,
    modified_text: String,
) -> Seq<Entry<V>> {
    id_as_url(
        publish_as_draft(
            pruned_summary(
                renamed_stamp(
                    renamed_stamp(
                        without_aliases(with_title(s, title)),
                        key_created(),
                        key_date(),
                        created_text,
                    ),
                    key_modified(),
                    key_lastmod(),
                    modified_text,
                ),
            ),
        ),
    )
}

/// Keys other than `title` keep their values under `with_title`.
pub proof fn lemma_title_frame<V>(s: Seq<Entry<V>>, title: String, k: Seq<char>)
    requires
        keys_distinct(s),
    ensures
        keys_distinct(with_title(s, title)),
        lookup(with_title(s, title), key_title()) == if is_unset(lookup(s, key_title())) {
            Some(MetaValue::Str(title))
        } else {
            lookup(s, key_title())
        },
        k != key_title() ==> lookup(with_title(s, title), k) == lookup(s, k),
{
    lemma_without(s, key_title());
    lemma_with(without(s, key_title()), key_title(), MetaValue::Str(title));
}

/// Keys other than `alias` and `aliases` keep their values.
pub proof fn lemma_aliases_frame<V>(s: Seq<Entry<V>>, k: Seq<char>)
    requires
        keys_distinct(s),
    ensures
        keys_distinct(without_aliases(s)),
        lookup(without_aliases(s), key_alias()) is None,
        lookup(without_aliases(s), key_aliases()) is None,
        k != key_alias() && k != key_aliases() ==> lookup(without_aliases(s), k) == lookup(s, k),
{
    lemma_keys_differ();
    lemma_without(s, key_alias());
    lemma_without(without(s, key_alias()), key_aliases());
}

/// What `renamed_stamp` leaves under each key.
pub proof fn lemma_stamp_frame<V>(
    s: Seq<Entry<V>>,
    from: Seq<char>,
    to: Seq<char>,
    fallback: String,
    k: Seq<char>,
)
    requires
        keys_distinct(s),
        from != to,
    ensures
        keys_distinct(renamed_stamp(s, from, to, fallback)),
        lookup(renamed_stamp(s, from, to, fallback), from) is None,
        lookup(renamed_stamp(s, from, to, fallback), to) == Some(
            if is_unset(lookup(s, from)) {
                MetaValue::Str(fallback)
            } else {
                lookup(s, from)->0
            },
        ),
        k != from && k != to ==> lookup(renamed_stamp(s, from, to, fallback), k) == lookup(s, k),
{
    let v = if is_unset(lookup(s, from)) {
        MetaValue::Str(fallback)
    } else {
        lookup(s, from)->0
    };
    lemma_without(s, from);
    lemma_with(without(s, from), to, v);
}

/// Keys other than `summary` keep their values.
pub proof fn lemma_summary_frame<V>(s: Seq<Entry<V>>, k: Seq<char>)
    requires
        keys_distinct(s),
    ensures
        keys_distinct(pruned_summary(s)),
        lookup(pruned_summary(s), key_summary()) == if lookup(s, key_summary()) == Some(
            MetaValue::<V>::Null,
        ) {
            None
        } else {
            lookup(s, key_summary())
        },
        k != key_summary() ==> lookup(pruned_summary(s), k) == lookup(s, k),
{
    lemma_without(s, key_summary());
}

/// Keys other than `publish` and `draft` keep their values.
pub proof fn lemma_publish_frame<V>(s: Seq<Entry<V>>, k: Seq<char>)
    requires
        keys_distinct(s),
    ensures
        keys_distinct(publish_as_draft(s)),
        lookup(s, key_publish()) matches Some(MetaValue::Bool(b)) ==> lookup(
            publish_as_draft(s),
            key_draft(),
        ) == Some(MetaValue::<V>::Bool(b)) && lookup(publish_as_draft(s), key_publish()) is None,
        !(lookup(s, key_publish()) matches Some(MetaValue::Bool(_))) ==> publish_as_draft(s) == s,
        k != key_publish() && k != key_draft() ==> lookup(publish_as_draft(s), k) == lookup(s, k),
{
    lemma_keys_differ();
    if let Some(MetaValue::Bool(b)) = lookup(s, key_publish()) {
        lemma_without(s, key_publish());
        lemma_with(without(s, key_publish()), key_draft(), MetaValue::Bool(b));
    }
}

/// What `id_as_url` leaves under each key.
pub proof fn lemma_url_frame<V>(s: Seq<Entry<V>>, k: Seq<char>)
    requires
        keys_distinct(s),
        has_key(s, key_id()),
    ensures
        keys_distinct(id_as_url(s)),
        lookup(id_as_url(s), key_id()) is None,
        lookup(id_as_url(s), key_url()) == lookup(s, key_id()),
        k != key_id() && k != key_url() ==> lookup(id_as_url(s), k) == lookup(s, k),
{
    lemma_keys_differ();
    lemma_lookup_present(s, key_id());
    lemma_without(s, key_id());
    lemma_with(without(s, key_id()), key_url(), lookup(s, key_id())->0);
}

fn set_title<V>(fm: &mut Frontmatter<V>, title: String)
    requires
        old(fm).wf(),
    ensures
        final(fm).wf(),
        final(fm)@ == with_title(old(fm)@, title),
{
    let unset = match fm.get("title") {
        None => true,
        Some(v) => matches!(v, MetaValue::Null),
    };
    if unset {
        fm.remove("title");
        fm.insert(String::from_str("title"), MetaValue::Str(title));
    }
}

fn strip_aliases<V>(fm: &mut Frontmatter<V>)
    requires
        old(fm).wf(),
    ensures
        final(fm).wf(),
        final(fm)@ == without_aliases(old(fm)@),
{
    fm.remove("alias");
    fm.remove("aliases");
}

fn rename_stamp<V>(fm: &mut Frontmatter<V>, from: &str, to: &str, fallback: String)
    requires
        old(fm).wf(),
    ensures
        final(fm).wf(),
        final(fm)@ == renamed_stamp(old(fm)@, from@, to@, fallback),
{
    let v = match fm.remove(from) {
        None => MetaValue::Str(fallback),
        Some(MetaValue::Null) => MetaValue::Str(fallback),
        Some(v) => v,
    };
    fm.insert(String::from_str(to), v);
}

fn prune_summary<V>(fm: &mut Frontmatter<V>)
    requires
        old(fm).wf(),
    ensures
        final(fm).wf(),
        final(fm)@ == pruned_summary(old(fm)@),
{
    let null = match fm.get("summary") {
        Some(v) => matches!(v, MetaValue::Null),
        None => false,
    };
    if null {
        fm.remove("summary");
    }
}

fn publish_to_draft<V>(fm: &mut Frontmatter<V>)
    requires
        old(fm).wf(),
    ensures
        final(fm).wf(),
        final(fm)@ == publish_as_draft(old(fm)@),
{
    let flag = match fm.get("publish") {
        Some(MetaValue::Bool(b)) => Some(*b),
        _ => None,
    };
    if let Some(b) = flag {
        fm.remove("publish");
        fm.insert(String::from_str("draft"), MetaValue::Bool(b));
    }
}

/// Rewrites the metadata of a note for Hugo, in this order: a missing or
/// null `title` becomes `title`; `alias` and `aliases` are dropped;
/// `created` moves to `date` and `modified` to `lastmod` (a missing or null
/// one becomes `created_text` or `modified_text`); a null `summary` is
/// dropped; a boolean `publish` moves to `draft`; `id` moves to `url`.
/// Without an `id` the metadata is left as it was and the error names it.
pub fn normalize_frontmatter<V>(
    fm: &mut Frontmatter<V>,
    title: String,
    created_text: String,
    modified_text: String,
) -> (r: Result<(), HookError>)
    requires
        old(fm).wf(),
    ensures
        final(fm).wf(),
        has_key(old(fm)@, key_id()) ==> r is Ok && final(fm)@ == hugo_normalized(
            old(fm)@,
            title,
            created_text,
            modified_text,
        ),
        !has_key(old(fm)@, key_id()) ==> final(fm)@ == old(fm)@ && (r matches Err(
            HookError::MissingField { key },
        ) && key@ == key_id()),
{
    if !fm.contains_key("id") {
        return Err(HookError::MissingField { key: String::from_str("id") });
    }
    let ghost s0 = fm@;
    set_title(fm, title);
    let ghost s1 = fm@;
    strip_aliases(fm);
    let ghost s2 = fm@;
    rename_stamp(fm, "created", "date", created_text);
    let ghost s3 = fm@;
    rename_stamp(fm, "modified", "lastmod", modified_text);
    let ghost s4 = fm@;
    prune_summary(fm);
    let ghost s5 = fm@;
    publish_to_draft(fm);
    let ghost s6 = fm@;
    proof {
        lemma_keys_differ();
        lemma_lookup_present(s0, key_id());
        lemma_title_frame(s0, title, key_id());
        lemma_aliases_frame(s1, key_id());
        lemma_stamp_frame(s2, key_created(), key_date(), created_text, key_id());
        lemma_stamp_frame(s3, key_modified(), key_lastmod(), modified_text, key_id());
        lemma_summary_frame(s4, key_id());
        lemma_publish_frame(s5, key_id());
    }
    proof {
        lemma_lookup_present(s6, key_id());
    }
    let id = fm.remove("id");
    match id {
        Some(v) => {
            fm.insert(String::from_str("url"), v);
        },
        None => {},
    }
    Ok(())
}

} // verus!
