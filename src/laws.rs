//! What the metadata rewrite guarantees, key by key.

use vstd::prelude::*;
use crate::frontmatter::{
    hugo_normalized, key_alias, key_aliases, key_created, key_date, key_draft, key_id, key_lastmod,
    key_modified, key_publish, key_summary, key_title, key_url, lemma_aliases_frame,
    lemma_keys_differ, lemma_publish_frame, lemma_stamp_frame, lemma_summary_frame,
    lemma_title_frame, lemma_url_frame, pruned_summary, publish_as_draft, renamed_stamp,
    with_title, without_aliases,
};
use crate::metadata::{has_key, is_unset, keys_distinct, lemma_lookup_present, lookup, Entry, MetaValue};
use crate::paths::note_title;
use crate::timestamp::is_stamp_text;

verus! {

/// The value the rewrite puts under `k`, read off the metadata it started from.
pub open spec fn normalized_value<V>(
    s: Seq<Entry<V>>,
    title: String,
    created_text: String,
    modified_text: String,
    k: Seq<char>,
) -> Option<MetaValue<V>> {
    if k == key_title() {
        if is_unset(lookup(s, key_title())) {
            Some(MetaValue::Str(title))
        } else {
            lookup(s, key_title())
        }
    } else if k == key_alias() || k == key_aliases() || k == key_created() || k == key_modified()
        || k == key_id() {
        None
    } else if k == key_date() {
        if is_unset(lookup(s, key_created())) {
            Some(MetaValue::Str(created_text))
        } else {
            lookup(s, key_created())
        }
    } else if k == key_lastmod() {
        if is_unset(lookup(s, key_modified())) {
            Some(MetaValue::Str(modified_text))
        } else {
            lookup(s, key_modified())
        }
    } else if k == key_summary() {
        if lookup(s, key_summary()) == Some(MetaValue::<V>::Null) {
            None
        } else {
            lookup(s, key_summary())
        }
    } else if k == key_publish() {
        if lookup(s, key_publish()) matches Some(MetaValue::Bool(_)) {
            None
        } else {
            lookup(s, key_publish())
        }
    } else if k == key_draft() {
        if lookup(s, key_publish()) matches Some(MetaValue::Bool(_)) {
            lookup(s, key_publish())
        } else {
            lookup(s, key_draft())
        }
    } else if k == key_url() {
        lookup(s, key_id())
    } else {
        lookup(s, k)
    }
}

proof fn lemma_stage_frames<V>(
    s: Seq<Entry<V>>,
    title: String,
    created_text: String,
    modified_text: String,
    k: Seq<char>,
)
    requires
        keys_distinct(s),
    ensures
        ({
            let s1 = with_title(s, title);
            let s2 = without_aliases(s1);
            let s3 = renamed_stamp(s2, key_created(), key_date(), created_text);
            let s4 = renamed_stamp(s3, key_modified(), key_lastmod(), modified_text);
            let s5 = pruned_summary(s4);
            &&& keys_distinct(s1) && keys_distinct(s2) && keys_distinct(s3)
            &&& keys_distinct(s4) && keys_distinct(s5) && keys_distinct(publish_as_draft(s5))
            &&& (k != key_title() ==> lookup(s1, k) == lookup(s, k))
            &&& (k != key_alias() && k != key_aliases() ==> lookup(s2, k) == lookup(s1, k))
            &&& (k != key_created() && k != key_date() ==> lookup(s3, k) == lookup(s2, k))
            &&& (k != key_modified() && k != key_lastmod() ==> lookup(s4, k) == lookup(s3, k))
            &&& (k != key_summary() ==> lookup(s5, k) == lookup(s4, k))
            &&& (k != key_publish() && k != key_draft() ==> lookup(publish_as_draft(s5), k)
                == lookup(s5, k))
        }),
{
    let s1 = with_title(s, title);
    let s2 = without_aliases(s1);
    let s3 = renamed_stamp(s2, key_created(), key_date(), created_text);
    let s4 = renamed_stamp(s3, key_modified(), key_lastmod(), modified_text);
    let s5 = pruned_summary(s4);
    lemma_keys_differ();
    lemma_title_frame(s, title, k);
    lemma_aliases_frame(s1, k);
    lemma_stamp_frame(s2, key_created(), key_date(), created_text, k);
    lemma_stamp_frame(s3, key_modified(), key_lastmod(), modified_text, k);
    lemma_summary_frame(s4, k);
    lemma_publish_frame(s5, k);
}

/// Under every key, the rewritten metadata holds `normalized_value`.
pub proof fn lemma_normalized_lookup<V>(
    s: Seq<Entry<V>>,
    title: String,
    created_text: String,
    modified_text: String,
    k: Seq<char>,
)
    requires
        keys_distinct(s),
        has_key(s, key_id()),
    ensures
        keys_distinct(hugo_normalized(s, title, created_text, modified_text)),
        lookup(hugo_normalized(s, title, created_text, modified_text), k) == normalized_value(
            s,
            title,
            created_text,
            modified_text,
            k,
        ),
{
    let s1 = with_title(s, title);
    let s2 = without_aliases(s1);
    let s3 = renamed_stamp(s2, key_created(), key_date(), created_text);
    let s4 = renamed_stamp(s3, key_modified(), key_lastmod(), modified_text);
    let s5 = pruned_summary(s4);
    let s6 = publish_as_draft(s5);
    lemma_keys_differ();
    lemma_stage_frames(s, title, created_text, modified_text, k);
    lemma_stage_frames(s, title, created_text, modified_text, key_id());
    lemma_lookup_present(s, key_id());
    lemma_lookup_present(s6, key_id());
    lemma_url_frame(s6, k);
    if k == key_title() {
        lemma_title_frame(s, title, k);
    } else if k == key_alias() || k == key_aliases() {
        lemma_aliases_frame(s1, k);
    } else if k == key_created() || k == key_date() {
        lemma_stage_frames(s, title, created_text, modified_text, key_created());
        lemma_stamp_frame(s2, key_created(), key_date(), created_text, k);
    } else if k == key_modified() || k == key_lastmod() {
        lemma_stage_frames(s, title, created_text, modified_text, key_modified());
        lemma_stamp_frame(s3, key_modified(), key_lastmod(), modified_text, k);
    } else if k == key_summary() {
        lemma_stage_frames(s, title, created_text, modified_text, key_summary());
        lemma_summary_frame(s4, k);
    } else if k == key_publish() || k == key_draft() {
        lemma_stage_frames(s, title, created_text, modified_text, key_publish());
        lemma_stage_frames(s, title, created_text, modified_text, key_draft());
        lemma_publish_frame(s5, k);
    }
}

/// A note whose title is missing or null gets the title inferred from its
/// path: the file stem, or the placeholder when the path has none.
pub proof fn law_missing_title_inferred<V>(
    s: Seq<Entry<V>>,
    path: Seq<char>,
    title: String,
    created_text: String,
    modified_text: String,
)
    requires
        keys_distinct(s),
        has_key(s, key_id()),
        is_unset(lookup(s, key_title())),
        title@ == note_title(path),
    ensures
        lookup(hugo_normalized(s, title, created_text, modified_text), key_title()) matches Some(
            MetaValue::Str(t),
        ) && t@ == note_title(path),
{
    lemma_keys_differ();
    lemma_normalized_lookup(s, title, created_text, modified_text, key_title());
}

/// After the rewrite no `alias`, `aliases`, `created`, `modified` or `id`
/// is left, and no `publish` either where it was absent or a boolean.
pub proof fn law_renamed_keys_gone<V>(
    s: Seq<Entry<V>>,
    title: String,
    created_text: String,
    modified_text: String,
)
    requires
        keys_distinct(s),
        has_key(s, key_id()),
        lookup(s, key_publish()) is None || lookup(s, key_publish()) matches Some(
            MetaValue::Bool(_),
        ),
    ensures
        ({
            let r = hugo_normalized(s, title, created_text, modified_text);
            &&& !has_key(r, key_alias())
            &&& !has_key(r, key_aliases())
            &&& !has_key(r, key_created())
            &&& !has_key(r, key_modified())
            &&& !has_key(r, key_publish())
            &&& !has_key(r, key_id())
        }),
{
    lemma_keys_differ();
    let r = hugo_normalized(s, title, created_text, modified_text);
    lemma_normalized_lookup(s, title, created_text, modified_text, key_alias());
    lemma_normalized_lookup(s, title, created_text, modified_text, key_aliases());
    lemma_normalized_lookup(s, title, created_text, modified_text, key_created());
    lemma_normalized_lookup(s, title, created_text, modified_text, key_modified());
    lemma_normalized_lookup(s, title, created_text, modified_text, key_publish());
    lemma_normalized_lookup(s, title, created_text, modified_text, key_id());
    lemma_lookup_present(r, key_alias());
    lemma_lookup_present(r, key_aliases());
    lemma_lookup_present(r, key_created());
    lemma_lookup_present(r, key_modified());
    lemma_lookup_present(r, key_publish());
    lemma_lookup_present(r, key_id());
}

/// A present, non-null `created` becomes `date` unchanged; otherwise `date`
/// is the text of the file's creation time, which is empty where there is
/// none.
pub proof fn law_date_from_created<V>(
    s: Seq<Entry<V>>,
    title: String,
    created_at: Option<i64>,
    created_text: String,
    modified_text: String,
)
    requires
        keys_distinct(s),
        has_key(s, key_id()),
        is_stamp_text(created_at, created_text@),
    ensures
        ({
            let date = lookup(hugo_normalized(s, title, created_text, modified_text), key_date());
            &&& !is_unset(lookup(s, key_created())) ==> date == lookup(s, key_created())
            &&& is_unset(lookup(s, key_created())) ==> (date matches Some(MetaValue::Str(d))
                && is_stamp_text(created_at, d@))
            &&& (is_unset(lookup(s, key_created())) && created_at is None) ==> (date matches Some(
                MetaValue::Str(d),
            ) && d@.len() == 0)
        }),
{
    lemma_keys_differ();
    lemma_normalized_lookup(s, title, created_text, modified_text, key_date());
}

/// A null `summary` is dropped; an absent one stays absent; any other
/// value is kept as it was.
pub proof fn law_summary_pruned<V>(
    s: Seq<Entry<V>>,
    title: String,
    created_text: String,
    modified_text: String,
)
    requires
        keys_distinct(s),
        has_key(s, key_id()),
    ensures
        ({
            let summary = lookup(
                hugo_normalized(s, title, created_text, modified_text),
                key_summary(),
            );
            &&& lookup(s, key_summary()) == Some(MetaValue::<V>::Null) ==> summary is None
            &&& lookup(s, key_summary()) is None ==> summary is None
            &&& (lookup(s, key_summary()) is Some && lookup(s, key_summary()) != Some(
                MetaValue::<V>::Null,
            )) ==> summary == lookup(s, key_summary())
        }),
{
    lemma_keys_differ();
    lemma_normalized_lookup(s, title, created_text, modified_text, key_summary());
}

/// `publish: true` becomes `draft: true`, and `publish` is gone.
pub proof fn law_publish_becomes_draft<V>(
    s: Seq<Entry<V>>,
    title: String,
    created_text: String,
    modified_text: String,
)
    requires
        keys_distinct(s),
        has_key(s, key_id()),
        lookup(s, key_publish()) == Some(MetaValue::<V>::Bool(true)),
    ensures
        lookup(hugo_normalized(s, title, created_text, modified_text), key_draft()) == Some(
            MetaValue::<V>::Bool(true),
        ),
        lookup(hugo_normalized(s, title, created_text, modified_text), key_publish()) is None,
{
    lemma_keys_differ();
    lemma_normalized_lookup(s, title, created_text, modified_text, key_draft());
    lemma_normalized_lookup(s, title, created_text, modified_text, key_publish());
}

/// The `id` moves to `url` with its value, and the rewritten metadata has no
/// `id`: rewriting it a second time fails (see `normalize_frontmatter`)
/// instead of dropping the `url`.
pub proof fn law_id_moves_to_url_once<V>(
    s: Seq<Entry<V>>,
    title: String,
    created_text: String,
    modified_text: String,
)
    requires
        keys_distinct(s),
        has_key(s, key_id()),
    ensures
        lookup(hugo_normalized(s, title, created_text, modified_text), key_url()) == lookup(
            s,
            key_id(),
        ),
        lookup(s, key_id()) is Some,
        !has_key(hugo_normalized(s, title, created_text, modified_text), key_id()),
        keys_distinct(hugo_normalized(s, title, created_text, modified_text)),
{
    lemma_keys_differ();
    let r = hugo_normalized(s, title, created_text, modified_text);
    lemma_normalized_lookup(s, title, created_text, modified_text, key_url());
    lemma_normalized_lookup(s, title, created_text, modified_text, key_id());
    lemma_lookup_present(s, key_id());
    lemma_lookup_present(r, key_id());
}

/// The rewritten metadata always has a `title`, a `date` and a `lastmod`,
/// and a `url`.
pub proof fn law_hugo_fields_present<V>(
    s: Seq<Entry<V>>,
    title: String,
    created_text: String,
    modified_text: String,
)
    requires
        keys_distinct(s),
        has_key(s, key_id()),
    ensures
        ({
            let r = hugo_normalized(s, title, created_text, modified_text);
            &&& has_key(r, key_title())
            &&& has_key(r, key_date())
            &&& has_key(r, key_lastmod())
            &&& has_key(r, key_url())
        }),
{
    lemma_keys_differ();
    let r = hugo_normalized(s, title, created_text, modified_text);
    lemma_normalized_lookup(s, title, created_text, modified_text, key_title());
    lemma_normalized_lookup(s, title, created_text, modified_text, key_date());
    lemma_normalized_lookup(s, title, created_text, modified_text, key_lastmod());
    lemma_normalized_lookup(s, title, created_text, modified_text, key_url());
    lemma_lookup_present(s, key_id());
    lemma_lookup_present(r, key_title());
    lemma_lookup_present(r, key_date());
    lemma_lookup_present(r, key_lastmod());
    lemma_lookup_present(r, key_url());
}

} // verus!
