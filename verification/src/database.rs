//! The denormalized record store. One logical rule becomes a primary record
//! keyed by `(listener key, rule id)` plus one collaborator record per
//! collaborator, keyed by `(collaborator id, rule id)`; a logical write puts
//! or removes the whole set as one batch. Lookup runs by listener (the
//! partition key), by rule id (a secondary scan), and by collaborator (the
//! inverted records, then a fetch per reference).

use vstd::prelude::*;
use vstd::string::*;
use crate::errors::ReceptionistError;
use crate::listeners::{ListenerEvent, ListenerEventView};
use crate::response::{ReceptionistResponse, ResponseView};
use crate::strutil::{is_prefix_of, starts_with, str_eq, string_of, chars_of};

verus! {

/// The partition key of a listener: its kind name, a slash, the channel id.
pub open spec fn spec_listener_key(l: ListenerEventView) -> Seq<char> {
    "slack-channel-message/"@ + l.channel_id()
}

/// Renders a listener's partition key.
pub fn listener_key(l: &ListenerEvent) -> (r: String)
    ensures
        r@ == spec_listener_key(l@),
{
    match l {
        ListenerEvent::SlackChannelMessage { channel_id } => {
            let mut s: String = "slack-channel-message/".to_owned();
            s.append(channel_id.as_str());
            s
        },
    }
}

/// The listener a partition key encodes, if it is well-formed.
pub open spec fn spec_listener_of_key(key: Seq<char>) -> Option<ListenerEventView> {
    if is_prefix_of("slack-channel-message/"@, key) {
        Some(
            ListenerEventView::SlackChannelMessage {
                channel_id: key.subrange("slack-channel-message/"@.len() as int, key.len() as int),
            },
        )
    } else {
        None
    }
}

/// Decodes a partition key back into a listener.
pub fn try_listener_from_key(key: &str) -> (r: Result<ListenerEvent, ReceptionistError>)
    ensures
        match r {
            Ok(l) => spec_listener_of_key(key@) == Some(l@),
            Err(e) => e == ReceptionistError::NotFound && spec_listener_of_key(key@) is None,
        },
{
    let prefix = "slack-channel-message/";
    if starts_with(key, prefix) {
        let v = chars_of(key);
        let plen = prefix.unicode_len();
        let mut rest: Vec<char> = Vec::new();
        let mut i: usize = plen;
        while i < v.len()
            invariant
                plen <= i <= v@.len(),
                rest@ == v@.subrange(plen as int, i as int),
            decreases v@.len() - i,
        {
            rest.push(v[i]);
            i = i + 1;
            proof {
                assert(rest@ =~= v@.subrange(plen as int, i as int));
            }
        }
        proof {
            assert(rest@ =~= v@.subrange(plen as int, v@.len() as int));
        }
        let channel_id = string_of(&rest);
        Ok(ListenerEvent::SlackChannelMessage { channel_id })
    } else {
        Err(ReceptionistError::NotFound)
    }
}

/// Encoding a listener's key and decoding it gives the listener back.
pub proof fn lemma_listener_key_round_trip(l: ListenerEventView)
    ensures
        spec_listener_of_key(spec_listener_key(l)) == Some(l),
{
    let prefix = "slack-channel-message/"@;
    let key = spec_listener_key(l);
    assert(key.subrange(0, prefix.len() as int) =~= prefix);
    assert(key.subrange(prefix.len() as int, key.len() as int) =~= l.channel_id());
}

/// The spec-level value of a stored record.
pub ghost enum TableItemView {
    Response { pk: Seq<char>, sk: Seq<char>, response: ResponseView },
    Collaborator { pk: Seq<char>, sk: Seq<char>, listener_pk: Seq<char> },
}

impl TableItemView {
    pub open spec fn pk(self) -> Seq<char> {
        match self {
            TableItemView::Response { pk, .. } => pk,
            TableItemView::Collaborator { pk, .. } => pk,
        }
    }

    pub open spec fn sk(self) -> Seq<char> {
        match self {
            TableItemView::Response { sk, .. } => sk,
            TableItemView::Collaborator { sk, .. } => sk,
        }
    }
}

/// One physical record of the store.
#[derive(Debug, PartialEq, Eq)]
pub enum ReceptionistTableItem {
    /// The primary record: partition key is the listener key, sort key the
    /// rule id, and the full rule rides along.
    Response { pk: String, sk: String, response: ReceptionistResponse },
    /// One inverted record per collaborator: partition key is the
    /// collaborator id, sort key the rule id.
    Collaborator { pk: String, sk: String, listener_pk: String },
}

impl View for ReceptionistTableItem {
    type V = TableItemView;

    open spec fn view(&self) -> TableItemView {
        match self {
            ReceptionistTableItem::Response { pk, sk, response } => (TableItemView::Response {
                pk: pk@,
                sk: sk@,
                response: response@,
            }),
            ReceptionistTableItem::Collaborator { pk, sk, listener_pk } => (
            TableItemView::Collaborator { pk: pk@, sk: sk@, listener_pk: listener_pk@ }),
        }
    }
}

impl ReceptionistTableItem {
    /// The composite key of this record.
    pub fn get_pk_sk_strings(&self) -> (r: (String, String))
        ensures
            r.0@ == self@.pk(),
            r.1@ == self@.sk(),
    {
        match self {
            ReceptionistTableItem::Response { pk, sk, .. } => (pk.clone(), sk.clone()),
            ReceptionistTableItem::Collaborator { pk, sk, .. } => (pk.clone(), sk.clone()),
        }
    }
}

/// A sequence of records, viewed.
pub open spec fn views_of_items(v: Seq<ReceptionistTableItem>) -> Seq<TableItemView> {
    Seq::new(v.len(), |i: int| v[i]@)
}

/// A sequence of rules, viewed.
pub open spec fn views_of_responses(v: Seq<ReceptionistResponse>) -> Seq<ResponseView> {
    Seq::new(v.len(), |i: int| v[i]@)
}

/// The record set of one rule: the primary record first, then one
/// collaborator record per collaborator, in list order.
pub open spec fn spec_table_items(rv: ResponseView) -> Seq<TableItemView> {
    seq![
        TableItemView::Response { pk: spec_listener_key(rv.listener), sk: rv.id, response: rv },
    ] + Seq::new(
        rv.collaborators.len(),
        |i: int|
            TableItemView::Collaborator {
                pk: rv.collaborators[i],
                sk: rv.id,
                listener_pk: spec_listener_key(rv.listener),
            },
    )
}

/// Translates a rule into its full record set.
pub fn convert_response_to_table_items(rec_response: ReceptionistResponse) -> (r: Result<
    Vec<ReceptionistTableItem>,
    ReceptionistError,
>)
    ensures
        match r {
            Ok(items) => views_of_items(items@) == spec_table_items(rec_response@),
            Err(_) => false,
        },
{
    let key = listener_key(&rec_response.listener);
    let mut items: Vec<ReceptionistTableItem> = Vec::new();
    let n = rec_response.collaborators.len();
    let resp_clone = rec_response.clone();
    items.push(
        ReceptionistTableItem::Response {
            pk: key.clone(),
            sk: rec_response.id.clone(),
            response: resp_clone,
        },
    );
    proof {
        assert(views_of_items(items@)[0] == spec_table_items(rec_response@)[0]);
        assert(items@.len() == 1);
    }
    let mut k: usize = 0;
    while k < n
        invariant
            n == rec_response.collaborators@.len(),
            k <= n,
            key@ == spec_listener_key(rec_response@.listener),
            items@.len() == k + 1,
            forall|i: int| 0 <= i < k + 1 ==> views_of_items(items@)[i] == spec_table_items(
                rec_response@,
            )[i],
        decreases n - k,
    {
        let item = ReceptionistTableItem::Collaborator {
            pk: rec_response.collaborators[k].clone(),
            sk: rec_response.id.clone(),
            listener_pk: key.clone(),
        };
        proof {
            let rv = rec_response@;
            assert(rv.collaborators[k as int] == rec_response.collaborators@[k as int]@);
            assert(item@ == spec_table_items(rv)[k as int + 1]);
        }
        items.push(item);
        k = k + 1;
        proof {
            assert(views_of_items(items@)[k as int] == spec_table_items(rec_response@)[k as int]);
            assert forall|i: int|
                0 <= i < k + 1 implies views_of_items(items@)[i] == spec_table_items(
                rec_response@,
            )[i] by {
                if i < k as int {
                    assert(views_of_items(items@)[i] == items@[i]@);
                }
            }
        }
    }
    proof {
        assert(views_of_items(items@) =~= spec_table_items(rec_response@));
    }
    Ok(items)
}

/// Two records share a composite key.
pub open spec fn item_key_is(it: TableItemView, pk: Seq<char>, sk: Seq<char>) -> bool {
    it.pk() == pk && it.sk() == sk
}

/// Some record in `items` has the key.
pub open spec fn has_key(items: Seq<TableItemView>, pk: Seq<char>, sk: Seq<char>) -> bool {
    exists|i: int| 0 <= i < items.len() && item_key_is(#[trigger] items[i], pk, sk)
}

/// The position of the record with the key; meaningful under `wf_items`.
pub open spec fn key_index(items: Seq<TableItemView>, pk: Seq<char>, sk: Seq<char>) -> int {
    choose|i: int| 0 <= i < items.len() && item_key_is(#[trigger] items[i], pk, sk)
}

/// Composite keys are unique across the store.
pub open spec fn wf_items(items: Seq<TableItemView>) -> bool {
    forall|i: int, j: int|
        0 <= i < j < items.len() ==> !((#[trigger] items[i]).pk() == (#[trigger] items[j]).pk()
            && items[i].sk() == items[j].sk())
}

/// Under uniqueness, any position holding the key is `key_index`.
pub proof fn lemma_key_index_of(items: Seq<TableItemView>, pk: Seq<char>, sk: Seq<char>, i: int)
    requires
        wf_items(items),
        0 <= i < items.len(),
        item_key_is(items[i], pk, sk),
    ensures
        has_key(items, pk, sk),
        key_index(items, pk, sk) == i,
{
    assert(has_key(items, pk, sk));
    let j = key_index(items, pk, sk);
    if i < j {
        assert(!(items[i].pk() == items[j].pk() && items[i].sk() == items[j].sk()));
    } else if j < i {
        assert(!(items[j].pk() == items[i].pk() && items[j].sk() == items[i].sk()));
    }
}

/// One batch-put step: replace the record with the same key, else append.
pub open spec fn put_one(items: Seq<TableItemView>, it: TableItemView) -> Seq<TableItemView> {
    if has_key(items, it.pk(), it.sk()) {
        items.update(key_index(items, it.pk(), it.sk()), it)
    } else {
        items.push(it)
    }
}

/// A whole batch of puts, first record first.
pub open spec fn put_seq(items: Seq<TableItemView>, puts: Seq<TableItemView>) -> Seq<
    TableItemView,
>
    decreases puts.len(),
{
    if puts.len() == 0 {
        items
    } else {
        put_seq(put_one(items, puts[0]), puts.drop_first())
    }
}

/// Processing one more put equals putting it after the prefix.
pub proof fn lemma_put_seq_snoc(
    items: Seq<TableItemView>,
    puts: Seq<TableItemView>,
    it: TableItemView,
)
    ensures
        put_seq(items, puts.push(it)) == put_one(put_seq(items, puts), it),
    decreases puts.len(),
{
    if puts.len() == 0 {
        assert(puts.push(it).drop_first() =~= Seq::<TableItemView>::empty());
        assert(put_seq(items, puts.push(it)) == put_seq(put_one(items, it), Seq::empty()));
    } else {
        assert(puts.push(it).drop_first() =~= puts.drop_first().push(it));
        assert(puts.push(it)[0] == puts[0]);
        lemma_put_seq_snoc(put_one(items, puts[0]), puts.drop_first(), it);
    }
}

/// One batch-delete step: remove the record with the key, if present.
pub open spec fn remove_one(items: Seq<TableItemView>, pk: Seq<char>, sk: Seq<char>) -> Seq<
    TableItemView,
> {
    if has_key(items, pk, sk) {
        items.remove(key_index(items, pk, sk))
    } else {
        items
    }
}

/// A whole batch of deletes, first key first.
pub open spec fn remove_seq(items: Seq<TableItemView>, keys: Seq<(Seq<char>, Seq<char>)>) -> Seq<
    TableItemView,
>
    decreases keys.len(),
{
    if keys.len() == 0 {
        items
    } else {
        remove_seq(remove_one(items, keys[0].0, keys[0].1), keys.drop_first())
    }
}

/// Processing one more delete equals deleting it after the prefix.
pub proof fn lemma_remove_seq_snoc(
    items: Seq<TableItemView>,
    keys: Seq<(Seq<char>, Seq<char>)>,
    key: (Seq<char>, Seq<char>),
)
    ensures
        remove_seq(items, keys.push(key)) == remove_one(remove_seq(items, keys), key.0, key.1),
    decreases keys.len(),
{
    if keys.len() == 0 {
        assert(keys.push(key)[0] == key);
        assert(keys.push(key).drop_first() =~= Seq::<(Seq<char>, Seq<char>)>::empty());
        assert(remove_seq(items, keys.push(key)) == remove_seq(
            remove_one(items, key.0, key.1),
            Seq::empty(),
        ));
    } else {
        assert(keys.push(key).drop_first() =~= keys.drop_first().push(key));
        assert(keys.push(key)[0] == keys[0]);
        lemma_remove_seq_snoc(remove_one(items, keys[0].0, keys[0].1), keys.drop_first(), key);
    }
}

/// The keys of a record set.
pub open spec fn keys_of_items(items: Seq<TableItemView>) -> Seq<(Seq<char>, Seq<char>)> {
    Seq::new(items.len(), |i: int| (items[i].pk(), items[i].sk()))
}

/// Some primary record carries this rule id.
pub open spec fn has_response_id(items: Seq<TableItemView>, id: Seq<char>) -> bool {
    exists|i: int|
        0 <= i < items.len() && (#[trigger] items[i]) is Response && items[i].sk() == id
}

/// The rules of the first `k` primary records whose partition key is `pk`,
/// in store order.
pub open spec fn rules_for_listener_upto(
    items: Seq<TableItemView>,
    pk: Seq<char>,
    k: int,
) -> Seq<ResponseView>
    decreases k,
{
    if k <= 0 {
        Seq::empty()
    } else {
        rules_for_listener_upto(items, pk, k - 1) + (match items[k - 1] {
            TableItemView::Response { pk: ipk, response, .. } => {
                if ipk == pk {
                    seq![response]
                } else {
                    Seq::empty()
                }
            },
            TableItemView::Collaborator { .. } => Seq::empty(),
        })
    }
}

/// Every rule stored under the listener's partition key.
pub open spec fn rules_for_listener(items: Seq<TableItemView>, pk: Seq<char>) -> Seq<
    ResponseView,
> {
    rules_for_listener_upto(items, pk, items.len() as int)
}

/// The rules of the first `k` primary records whose sort key is `id`.
pub open spec fn rules_with_id_upto(items: Seq<TableItemView>, id: Seq<char>, k: int) -> Seq<
    ResponseView,
>
    decreases k,
{
    if k <= 0 {
        Seq::empty()
    } else {
        rules_with_id_upto(items, id, k - 1) + (match items[k - 1] {
            TableItemView::Response { sk, response, .. } => {
                if sk == id {
                    seq![response]
                } else {
                    Seq::empty()
                }
            },
            TableItemView::Collaborator { .. } => Seq::empty(),
        })
    }
}

/// Every rule stored under this id; exactly one when the store is sound.
pub open spec fn rules_with_id(items: Seq<TableItemView>, id: Seq<char>) -> Seq<ResponseView> {
    rules_with_id_upto(items, id, items.len() as int)
}

/// The `(listener key, rule id)` references of the first `k` collaborator
/// records whose partition key is `user`.
pub open spec fn collab_refs_upto(items: Seq<TableItemView>, user: Seq<char>, k: int) -> Seq<
    (Seq<char>, Seq<char>),
>
    decreases k,
{
    if k <= 0 {
        Seq::empty()
    } else {
        collab_refs_upto(items, user, k - 1) + (match items[k - 1] {
            TableItemView::Collaborator { pk, sk, listener_pk } => {
                if pk == user {
                    seq![(listener_pk, sk)]
                } else {
                    Seq::empty()
                }
            },
            TableItemView::Response { .. } => Seq::empty(),
        })
    }
}

/// Every rule reference of this collaborator.
pub open spec fn collab_refs(items: Seq<TableItemView>, user: Seq<char>) -> Seq<
    (Seq<char>, Seq<char>),
> {
    collab_refs_upto(items, user, items.len() as int)
}

/// The rule stored under the composite key, if that key holds a primary
/// record.
pub open spec fn lookup_response(
    items: Seq<TableItemView>,
    pk: Seq<char>,
    sk: Seq<char>,
) -> Option<ResponseView> {
    if has_key(items, pk, sk) {
        match items[key_index(items, pk, sk)] {
            TableItemView::Response { response, .. } => Some(response),
            TableItemView::Collaborator { .. } => None,
        }
    } else {
        None
    }
}

/// The rules fetched for a reference list: present primary records, in
/// reference order; a missing or non-primary key is skipped.
pub open spec fn fetch_refs_upto(
    items: Seq<TableItemView>,
    refs: Seq<(Seq<char>, Seq<char>)>,
    k: int,
) -> Seq<ResponseView>
    decreases k,
{
    if k <= 0 {
        Seq::empty()
    } else {
        fetch_refs_upto(items, refs, k - 1) + (match lookup_response(
            items,
            refs[k - 1].0,
            refs[k - 1].1,
        ) {
            Some(rv) => seq![rv],
            None => Seq::empty(),
        })
    }
}

/// The record store, keyed by `(partition key, sort key)`.
#[derive(Debug)]
pub struct ReceptionistDatabase {
    items: Vec<ReceptionistTableItem>,
}

impl View for ReceptionistDatabase {
    type V = Seq<TableItemView>;

    closed spec fn view(&self) -> Seq<TableItemView> {
        views_of_items(self.items@)
    }
}

/// Finds the position of a key, if stored.
fn position_of_key(items: &Vec<ReceptionistTableItem>, pk: &str, sk: &str) -> (r: Option<usize>)
    ensures
        match r {
            Some(i) => i < items@.len() && item_key_is(views_of_items(items@)[i as int], pk@, sk@),
            None => !has_key(views_of_items(items@), pk@, sk@),
        },
{
    let mut i: usize = 0;
    while i < items.len()
        invariant
            i <= items@.len(),
            forall|j: int|
                0 <= j < i ==> !item_key_is(#[trigger] views_of_items(items@)[j], pk@, sk@),
        decreases items@.len() - i,
    {
        let matches = match &items[i] {
            ReceptionistTableItem::Response { pk: ipk, sk: isk, .. } => {
                str_eq(ipk.as_str(), pk) && str_eq(isk.as_str(), sk)
            },
            ReceptionistTableItem::Collaborator { pk: ipk, sk: isk, .. } => {
                str_eq(ipk.as_str(), pk) && str_eq(isk.as_str(), sk)
            },
        };
        if matches {
            return Some(i);
        }
        i = i + 1;
    }
    proof {
        assert forall|j: int|
            0 <= j < views_of_items(items@).len() implies !item_key_is(
            #[trigger] views_of_items(items@)[j],
            pk@,
            sk@,
        ) by {}
    }
    None
}

impl ReceptionistDatabase {
    /// Keys are unique across the stored records.
    pub open spec fn wf(&self) -> bool {
        wf_items(self@)
    }

    /// An empty store.
    pub fn new() -> (r: Self)
        ensures
            r.wf(),
            r@ =~= Seq::<TableItemView>::empty(),
    {
        ReceptionistDatabase { items: Vec::new() }
    }

    /// Puts one record: replaces the one sharing its key, else appends.
    fn put_item(&mut self, item: ReceptionistTableItem)
        requires
            old(self).wf(),
        ensures
            final(self).wf(),
            final(self)@ == put_one(old(self)@, item@),
    {
        let (pk, sk) = item.get_pk_sk_strings();
        match position_of_key(&self.items, pk.as_str(), sk.as_str()) {
            Some(i) => {
                self.items[i] = item;
                proof {
                    lemma_key_index_of(old(self)@, pk@, sk@, i as int);
                    assert(self@ =~= old(self)@.update(i as int, item@));
                    assert forall|a: int, b: int|
                        0 <= a < b < self@.len() implies !((#[trigger] self@[a]).pk() == (
                    #[trigger] self@[b]).pk() && self@[a].sk() == self@[b].sk()) by {
                        assert(old(self)@[a].pk() == self@[a].pk() || a == i);
                        assert(self@[a].pk() == old(self)@[a].pk() || self@[a].pk() == old(
                            self,
                        )@[i as int].pk());
                        assert(self@[a].sk() == old(self)@[a].sk() || self@[a].sk() == old(
                            self,
                        )@[i as int].sk());
                        assert(self@[b].pk() == old(self)@[b].pk() || self@[b].pk() == old(
                            self,
                        )@[i as int].pk());
                        assert(self@[b].sk() == old(self)@[b].sk() || self@[b].sk() == old(
                            self,
                        )@[i as int].sk());
                    }
                }
            },
            None => {
                self.items.push(item);
                proof {
                    assert(self@ =~= old(self)@.push(item@));
                    assert forall|a: int, b: int|
                        0 <= a < b < self@.len() implies !((#[trigger] self@[a]).pk() == (
                    #[trigger] self@[b]).pk() && self@[a].sk() == self@[b].sk()) by {
                        if b == self@.len() - 1 {
                            assert(!item_key_is(old(self)@[a], pk@, sk@));
                        }
                    }
                }
            },
        }
    }

    /// Removes the record with the key, if stored.
    fn remove_key(&mut self, pk: &str, sk: &str)
        requires
            old(self).wf(),
        ensures
            final(self).wf(),
            final(self)@ == remove_one(old(self)@, pk@, sk@),
    {
        match position_of_key(&self.items, pk, sk) {
            Some(i) => {
                self.items.remove(i);
                proof {
                    lemma_key_index_of(old(self)@, pk@, sk@, i as int);
                    assert(self@ =~= old(self)@.remove(i as int));
                    assert forall|a: int, b: int|
                        0 <= a < b < self@.len() implies !((#[trigger] self@[a]).pk() == (
                    #[trigger] self@[b]).pk() && self@[a].sk() == self@[b].sk()) by {
                        let a0 = if a < i {
                            a
                        } else {
                            a + 1
                        };
                        let b0 = if b < i {
                            b
                        } else {
                            b + 1
                        };
                        assert(self@[a] == old(self)@[a0]);
                        assert(self@[b] == old(self)@[b0]);
                    }
                }
            },
            None => {},
        }
    }

    /// Writes the full record set of `rec_response` as one batch. Fails with
    /// `Conflict`, writing nothing, when a primary record with this rule id
    /// already exists.
    pub fn create_response(&mut self, rec_response: &ReceptionistResponse) -> (r: Result<
        (),
        ReceptionistError,
    >)
        requires
            old(self).wf(),
        ensures
            final(self).wf(),
            match r {
                Ok(()) => !has_response_id(old(self)@, rec_response@.id) && final(self)@ == put_seq(
                    old(self)@,
                    spec_table_items(rec_response@),
                ),
                Err(e) => e == ReceptionistError::Conflict && has_response_id(
                    old(self)@,
                    rec_response@.id,
                ) && final(self)@ == old(self)@,
            },
    {
        if self.contains_response_id(rec_response.id.as_str()) {
            return Err(ReceptionistError::Conflict);
        }
        self.put_response_records(rec_response);
        Ok(())
    }

    /// Overwrites the full record set of `rec_response` exactly as a create
    /// would, with no conflict check and no diffing: collaborator records of
    /// a prior collaborator set are not pruned.
    pub fn update_response(&mut self, response: &ReceptionistResponse) -> (r: Result<
        (),
        ReceptionistError,
    >)
        requires
            old(self).wf(),
        ensures
            final(self).wf(),
            r is Ok,
            final(self)@ == put_seq(old(self)@, spec_table_items(response@)),
    {
        self.put_response_records(response);
        Ok(())
    }

    /// Puts the whole record set of one rule.
    fn put_response_records(&mut self, rec_response: &ReceptionistResponse)
        requires
            old(self).wf(),
        ensures
            final(self).wf(),
            final(self)@ == put_seq(old(self)@, spec_table_items(rec_response@)),
    {
        let ghost all = spec_table_items(rec_response@);
        let key = listener_key(&rec_response.listener);
        self.put_item(
            ReceptionistTableItem::Response {
                pk: key.clone(),
                sk: rec_response.id.clone(),
                response: rec_response.clone(),
            },
        );
        proof {
            assert(all.subrange(0, 1) =~= seq![all[0]]);
            assert(seq![all[0]] =~= Seq::<TableItemView>::empty().push(all[0]));
            lemma_put_seq_snoc(old(self)@, Seq::empty(), all[0]);
            assert(put_seq(old(self)@, Seq::empty().push(all[0])) == self@);
            assert(self@ == put_seq(old(self)@, all.subrange(0, 1)));
        }
        let n = rec_response.collaborators.len();
        let mut k: usize = 0;
        while k < n
            invariant
                n == rec_response.collaborators@.len(),
                k <= n,
                key@ == spec_listener_key(rec_response@.listener),
                all == spec_table_items(rec_response@),
                all.len() == n + 1,
                self.wf(),
                self@ == put_seq(old(self)@, all.subrange(0, k as int + 1)),
            decreases n - k,
        {
            let ghost before = self@;
            let item = ReceptionistTableItem::Collaborator {
                pk: rec_response.collaborators[k].clone(),
                sk: rec_response.id.clone(),
                listener_pk: key.clone(),
            };
            proof {
                let rv = rec_response@;
                assert(rv.collaborators[k as int] == rec_response.collaborators@[k as int]@);
                assert(all[k as int + 1] == item@);
            }
            self.put_item(item);
            k = k + 1;
            proof {
                assert(all.subrange(0, k as int + 1) =~= all.subrange(0, k as int).push(
                    all[k as int],
                ));
                lemma_put_seq_snoc(old(self)@, all.subrange(0, k as int), all[k as int]);
            }
        }
        proof {
            assert(all.subrange(0, n as int + 1) =~= all);
        }
    }

    /// Removes the full record set of `rec_response` as one batch: the
    /// primary record and one collaborator record per listed collaborator.
    pub fn delete_response(&mut self, rec_response: &ReceptionistResponse) -> (r: Result<
        (),
        ReceptionistError,
    >)
        requires
            old(self).wf(),
        ensures
            final(self).wf(),
            r is Ok,
            final(self)@ == remove_seq(old(self)@, keys_of_items(spec_table_items(rec_response@))),
    {
        let ghost keys = keys_of_items(spec_table_items(rec_response@));
        let key = listener_key(&rec_response.listener);
        self.remove_key(key.as_str(), rec_response.id.as_str());
        proof {
            assert(keys.subrange(0, 1) =~= Seq::<(Seq<char>, Seq<char>)>::empty().push(keys[0]));
            lemma_remove_seq_snoc(old(self)@, Seq::empty(), keys[0]);
            assert(self@ == remove_seq(old(self)@, keys.subrange(0, 1)));
        }
        let n = rec_response.collaborators.len();
        let mut k: usize = 0;
        while k < n
            invariant
                n == rec_response.collaborators@.len(),
                k <= n,
                keys == keys_of_items(spec_table_items(rec_response@)),
                keys.len() == n + 1,
                self.wf(),
                self@ == remove_seq(old(self)@, keys.subrange(0, k as int + 1)),
            decreases n - k,
        {
            proof {
                assert(keys[k as int + 1] == (
                    rec_response.collaborators@[k as int]@,
                    rec_response@.id,
                ));
            }
            self.remove_key(rec_response.collaborators[k].as_str(), rec_response.id.as_str());
            k = k + 1;
            proof {
                assert(keys.subrange(0, k as int + 1) =~= keys.subrange(0, k as int).push(
                    keys[k as int],
                ));
                lemma_remove_seq_snoc(old(self)@, keys.subrange(0, k as int), keys[k as int]);
            }
        }
        proof {
            assert(keys.subrange(0, n as int + 1) =~= keys);
        }
        Ok(())
    }

    /// Whether a primary record with this rule id exists.
    fn contains_response_id(&self, response_id: &str) -> (r: bool)
        ensures
            r == has_response_id(self@, response_id@),
    {
        let mut i: usize = 0;
        while i < self.items.len()
            invariant
                i <= self.items@.len(),
                forall|j: int|
                    0 <= j < i ==> !((#[trigger] self@[j]) is Response && self@[j].sk()
                        == response_id@),
            decreases self.items@.len() - i,
        {
            match &self.items[i] {
                ReceptionistTableItem::Response { sk, .. } => {
                    if str_eq(sk.as_str(), response_id) {
                        proof {
                            assert(self@[i as int] is Response && self@[i as int].sk()
                                == response_id@);
                        }
                        return true;
                    }
                },
                ReceptionistTableItem::Collaborator { .. } => {},
            }
            i = i + 1;
        }
        false
    }

    /// Fetches the one rule stored under this id. `NotFound` when no primary
    /// record carries it; `InconsistentState` when several do, which a
    /// correct write path never produces.
    pub fn get_response_by_id(&self, response_id: &str) -> (r: Result<
        ReceptionistResponse,
        ReceptionistError,
    >)
        ensures
            match r {
                Ok(resp) => rules_with_id(self@, response_id@).len() == 1 && resp@ == rules_with_id(
                    self@,
                    response_id@,
                )[0],
                Err(e) => (e == ReceptionistError::NotFound && rules_with_id(
                    self@,
                    response_id@,
                ).len() == 0) || (e == ReceptionistError::InconsistentState && rules_with_id(
                    self@,
                    response_id@,
                ).len() > 1),
            },
    {
        let mut found: Vec<ReceptionistResponse> = Vec::new();
        let mut i: usize = 0;
        while i < self.items.len()
            invariant
                i <= self.items@.len(),
                views_of_responses(found@) == rules_with_id_upto(self@, response_id@, i as int),
            decreases self.items@.len() - i,
        {
            let ghost before = views_of_responses(found@);
            match &self.items[i] {
                ReceptionistTableItem::Response { sk, response, .. } => {
                    if str_eq(sk.as_str(), response_id) {
                        found.push(response.clone());
                        proof {
                            assert(views_of_responses(found@) =~= before.push(
                                self@[i as int]->Response_response,
                            ));
                            assert(before.push(self@[i as int]->Response_response)
                                =~= rules_with_id_upto(self@, response_id@, i as int + 1));
                        }
                    }
                },
                ReceptionistTableItem::Collaborator { .. } => {},
            }
            i = i + 1;
            proof {
                assert(views_of_responses(found@) =~= rules_with_id_upto(
                    self@,
                    response_id@,
                    i as int,
                ));
            }
        }
        if found.len() == 0 {
            Err(ReceptionistError::NotFound)
        } else if found.len() > 1 {
            Err(ReceptionistError::InconsistentState)
        } else {
            match found.pop() {
                Some(resp) => Ok(resp),
                None => Err(ReceptionistError::NotFound),
            }
        }
    }

    /// Every rule stored under the listener's partition key, in store order;
    /// empty when none exist.
    pub fn get_responses_for_listener(&self, listener: &ListenerEvent) -> (r: Result<
        Vec<ReceptionistResponse>,
        ReceptionistError,
    >)
        ensures
            match r {
                Ok(v) => views_of_responses(v@) == rules_for_listener(
                    self@,
                    spec_listener_key(listener@),
                ),
                Err(_) => false,
            },
    {
        let key = listener_key(listener);
        let mut found: Vec<ReceptionistResponse> = Vec::new();
        let mut i: usize = 0;
        while i < self.items.len()
            invariant
                i <= self.items@.len(),
                key@ == spec_listener_key(listener@),
                views_of_responses(found@) == rules_for_listener_upto(self@, key@, i as int),
            decreases self.items@.len() - i,
        {
            let ghost before = views_of_responses(found@);
            match &self.items[i] {
                ReceptionistTableItem::Response { pk, response, .. } => {
                    if str_eq(pk.as_str(), key.as_str()) {
                        found.push(response.clone());
                        proof {
                            assert(views_of_responses(found@) =~= before.push(
                                self@[i as int]->Response_response,
                            ));
                        }
                    }
                },
                ReceptionistTableItem::Collaborator { .. } => {},
            }
            i = i + 1;
            proof {
                assert(views_of_responses(found@) =~= rules_for_listener_upto(
                    self@,
                    key@,
                    i as int,
                ));
            }
        }
        Ok(found)
    }

    /// Every rule this user collaborates on: the inverted records name
    /// `(listener key, rule id)` pairs, whose primary records are then
    /// fetched; empty when the user collaborates on nothing.
    pub fn get_responses_for_collaborator(&self, user_id: &str) -> (r: Result<
        Vec<ReceptionistResponse>,
        ReceptionistError,
    >)
        requires
            self.wf(),
        ensures
            match r {
                Ok(v) => views_of_responses(v@) == fetch_refs_upto(
                    self@,
                    collab_refs(self@, user_id@),
                    collab_refs(self@, user_id@).len() as int,
                ),
                Err(_) => false,
            },
    {
        let mut refs: Vec<(String, String)> = Vec::new();
        let mut i: usize = 0;
        while i < self.items.len()
            invariant
                i <= self.items@.len(),
                views_of_refs(refs@) == collab_refs_upto(self@, user_id@, i as int),
            decreases self.items@.len() - i,
        {
            let ghost before = views_of_refs(refs@);
            match &self.items[i] {
                ReceptionistTableItem::Collaborator { pk, sk, listener_pk } => {
                    if str_eq(pk.as_str(), user_id) {
                        refs.push((listener_pk.clone(), sk.clone()));
                        proof {
                            assert(views_of_refs(refs@) =~= before.push(
                                (
                                    self@[i as int]->Collaborator_listener_pk,
                                    self@[i as int]->Collaborator_sk,
                                ),
                            ));
                        }
                    }
                },
                ReceptionistTableItem::Response { .. } => {},
            }
            i = i + 1;
            proof {
                assert(views_of_refs(refs@) =~= collab_refs_upto(self@, user_id@, i as int));
            }
        }
        let ghost all_refs = collab_refs(self@, user_id@);
        let mut found: Vec<ReceptionistResponse> = Vec::new();
        let mut k: usize = 0;
        while k < refs.len()
            invariant
                k <= refs@.len(),
                self.wf(),
                views_of_refs(refs@) == all_refs,
                views_of_responses(found@) == fetch_refs_upto(self@, all_refs, k as int),
            decreases refs@.len() - k,
        {
            let ghost before = views_of_responses(found@);
            match position_of_key(&self.items, refs[k].0.as_str(), refs[k].1.as_str()) {
                Some(i) => {
                    proof {
                        lemma_key_index_of(self@, all_refs[k as int].0, all_refs[k as int].1,
                            i as int);
                    }
                    match &self.items[i] {
                        ReceptionistTableItem::Response { response, .. } => {
                            found.push(response.clone());
                            proof {
                                assert(views_of_responses(found@) =~= before.push(
                                    self@[i as int]->Response_response,
                                ));
                            }
                        },
                        ReceptionistTableItem::Collaborator { .. } => {},
                    }
                },
                None => {},
            }
            k = k + 1;
            proof {
                assert(views_of_responses(found@) =~= fetch_refs_upto(self@, all_refs, k as int));
            }
        }
        Ok(found)
    }
}

/// A sequence of key references, viewed.
pub open spec fn views_of_refs(v: Seq<(String, String)>) -> Seq<(Seq<char>, Seq<char>)> {
    Seq::new(v.len(), |i: int| (v[i].0@, v[i].1@))
}

} // verus!

verus! {

proof fn lemma_rules_with_id_upto_nonempty(items: Seq<TableItemView>, id: Seq<char>, k: int)
    requires
        k <= items.len(),
    ensures
        (rules_with_id_upto(items, id, k).len() > 0) <==> (exists|i: int|
            0 <= i < k && (#[trigger] items[i]) is Response && items[i].sk() == id),
    decreases k,
{
    if k > 0 {
        lemma_rules_with_id_upto_nonempty(items, id, k - 1);
    }
}

/// The conflict check and the id lookup agree: a create conflicts on exactly
/// the ids for which `get_response_by_id` finds at least one rule.
pub proof fn lemma_conflict_iff_id_found(items: Seq<TableItemView>, id: Seq<char>)
    ensures
        has_response_id(items, id) <==> rules_with_id(items, id).len() > 0,
{
    lemma_rules_with_id_upto_nonempty(items, id, items.len() as int);
}

} // verus!

verus! {

/// A pushed record adds its key and keeps the others.
proof fn lemma_has_key_push(items: Seq<TableItemView>, x: TableItemView, pk: Seq<char>, sk: Seq<char>)
    ensures
        has_key(items.push(x), pk, sk) <==> (has_key(items, pk, sk) || item_key_is(x, pk, sk)),
{
    if has_key(items, pk, sk) {
        let i = choose|i: int| 0 <= i < items.len() && item_key_is(#[trigger] items[i], pk, sk);
        assert(items.push(x)[i] == items[i]);
        assert(has_key(items.push(x), pk, sk));
    }
    if item_key_is(x, pk, sk) {
        assert(items.push(x)[items.len() as int] == x);
        assert(has_key(items.push(x), pk, sk));
    }
    if has_key(items.push(x), pk, sk) && !item_key_is(x, pk, sk) {
        let i = choose|i: int|
            0 <= i < items.push(x).len() && item_key_is(#[trigger] items.push(x)[i], pk, sk);
        assert(i < items.len());
        assert(items[i] == items.push(x)[i]);
        assert(has_key(items, pk, sk));
    }
}

/// A batch whose keys are all fresh and pairwise distinct only appends.
proof fn lemma_put_seq_all_fresh(items: Seq<TableItemView>, puts: Seq<TableItemView>)
    requires
        forall|i: int|
            0 <= i < puts.len() ==> !has_key(items, (#[trigger] puts[i]).pk(), puts[i].sk()),
        forall|i: int, j: int|
            0 <= i < j < puts.len() ==> !((#[trigger] puts[i]).pk() == (#[trigger] puts[j]).pk()
                && puts[i].sk() == puts[j].sk()),
    ensures
        put_seq(items, puts) == items + puts,
    decreases puts.len(),
{
    if puts.len() == 0 {
        assert(items + puts =~= items);
    } else {
        let x = puts[0];
        assert(!has_key(items, x.pk(), x.sk()));
        assert(put_one(items, x) == items.push(x));
        let rest = puts.drop_first();
        assert forall|i: int|
            0 <= i < rest.len() implies !has_key(
            items.push(x),
            (#[trigger] rest[i]).pk(),
            rest[i].sk(),
        ) by {
            assert(rest[i] == puts[i + 1]);
            lemma_has_key_push(items, x, rest[i].pk(), rest[i].sk());
        }
        assert forall|i: int, j: int|
            0 <= i < j < rest.len() implies !((#[trigger] rest[i]).pk() == (
        #[trigger] rest[j]).pk() && rest[i].sk() == rest[j].sk()) by {
            assert(rest[i] == puts[i + 1]);
            assert(rest[j] == puts[j + 1]);
        }
        lemma_put_seq_all_fresh(items.push(x), rest);
        assert(items.push(x) + rest =~= items + puts);
    }
}

/// A query over the first `k` records ignores anything after them.
proof fn lemma_rules_with_id_upto_prefix(
    a: Seq<TableItemView>,
    b: Seq<TableItemView>,
    id: Seq<char>,
    k: int,
)
    requires
        0 <= k <= a.len(),
        a.len() <= b.len(),
        forall|i: int| 0 <= i < k ==> a[i] == b[i],
    ensures
        rules_with_id_upto(a, id, k) == rules_with_id_upto(b, id, k),
    decreases k,
{
    if k > 0 {
        lemma_rules_with_id_upto_prefix(a, b, id, k - 1);
    }
}

/// Splitting the store splits the id query.
proof fn lemma_rules_with_id_concat(a: Seq<TableItemView>, b: Seq<TableItemView>, id: Seq<char>)
    ensures
        rules_with_id(a + b, id) == rules_with_id(a, id) + rules_with_id(b, id),
    decreases b.len(),
{
    if b.len() == 0 {
        assert(a + b =~= a);
        assert(rules_with_id(a, id) + rules_with_id(b, id) =~= rules_with_id(a, id));
    } else {
        let front = b.drop_last();
        lemma_rules_with_id_concat(a, front, id);
        assert(a + front =~= (a + b).subrange(0, a.len() + b.len() - 1));
        assert forall|i: int| 0 <= i < a.len() + front.len() implies (a + front)[i] == (a + b)[
            i] by {}
        lemma_rules_with_id_upto_prefix(a + front, a + b, id, a.len() as int + front.len() as int);
        assert((a + b)[a.len() + b.len() - 1] == b.last());
        lemma_rules_with_id_upto_prefix(front, b, id, front.len() as int);
        assert(rules_with_id(a + b, id) =~= rules_with_id(a, id) + rules_with_id(b, id));
    }
}

/// Splitting the store splits the listener query.
proof fn lemma_rules_for_listener_upto_prefix(
    a: Seq<TableItemView>,
    b: Seq<TableItemView>,
    pk: Seq<char>,
    k: int,
)
    requires
        0 <= k <= a.len(),
        a.len() <= b.len(),
        forall|i: int| 0 <= i < k ==> a[i] == b[i],
    ensures
        rules_for_listener_upto(a, pk, k) == rules_for_listener_upto(b, pk, k),
    decreases k,
{
    if k > 0 {
        lemma_rules_for_listener_upto_prefix(a, b, pk, k - 1);
    }
}

proof fn lemma_rules_for_listener_concat(
    a: Seq<TableItemView>,
    b: Seq<TableItemView>,
    pk: Seq<char>,
)
    ensures
        rules_for_listener(a + b, pk) == rules_for_listener(a, pk) + rules_for_listener(b, pk),
    decreases b.len(),
{
    if b.len() == 0 {
        assert(a + b =~= a);
        assert(rules_for_listener(a, pk) + rules_for_listener(b, pk) =~= rules_for_listener(
            a,
            pk,
        ));
    } else {
        let front = b.drop_last();
        lemma_rules_for_listener_concat(a, front, pk);
        assert(a + front =~= (a + b).subrange(0, a.len() + b.len() - 1));
        lemma_rules_for_listener_upto_prefix(a + front, a + b, pk, a.len() as int + front.len() as int);
        assert((a + b)[a.len() + b.len() - 1] == b.last());
        lemma_rules_for_listener_upto_prefix(front, b, pk, front.len() as int);
        assert(rules_for_listener(a + b, pk) =~= rules_for_listener(a, pk) + rules_for_listener(
            b,
            pk,
        ));
    }
}

/// The record set of one rule answers the id query with exactly that rule.
proof fn lemma_batch_rules_with_id(rv: ResponseView, k: int)
    requires
        1 <= k <= spec_table_items(rv).len(),
    ensures
        rules_with_id_upto(spec_table_items(rv), rv.id, k) =~= seq![rv],
    decreases k,
{
    let batch = spec_table_items(rv);
    if k == 1 {
        assert(batch[0] == (TableItemView::Response {
            pk: spec_listener_key(rv.listener),
            sk: rv.id,
            response: rv,
        }));
        assert(rules_with_id_upto(batch, rv.id, 0) =~= Seq::<ResponseView>::empty());
        assert(rules_with_id_upto(batch, rv.id, 1) == rules_with_id_upto(batch, rv.id, 0) + seq![
            rv,
        ]);
        assert(rules_with_id_upto(batch, rv.id, 1) =~= seq![rv]);
    } else {
        lemma_batch_rules_with_id(rv, k - 1);
        assert(batch[k - 1] == (TableItemView::Collaborator {
            pk: rv.collaborators[k - 2],
            sk: rv.id,
            listener_pk: spec_listener_key(rv.listener),
        }));
        assert(rules_with_id_upto(batch, rv.id, k) == rules_with_id_upto(batch, rv.id, k - 1)
            + Seq::<ResponseView>::empty());
        assert(rules_with_id_upto(batch, rv.id, k) =~= seq![rv]);
    }
}

/// The record set of one rule answers its listener query with exactly that
/// rule.
proof fn lemma_batch_rules_for_listener(rv: ResponseView, k: int)
    requires
        1 <= k <= spec_table_items(rv).len(),
    ensures
        rules_for_listener_upto(spec_table_items(rv), spec_listener_key(rv.listener), k) =~= seq![
            rv,
        ],
    decreases k,
{
    let batch = spec_table_items(rv);
    let lk = spec_listener_key(rv.listener);
    if k == 1 {
        assert(batch[0] == (TableItemView::Response { pk: lk, sk: rv.id, response: rv }));
        assert(rules_for_listener_upto(batch, lk, 0) =~= Seq::<ResponseView>::empty());
        assert(rules_for_listener_upto(batch, lk, 1) == rules_for_listener_upto(batch, lk, 0)
            + seq![rv]);
        assert(rules_for_listener_upto(batch, lk, 1) =~= seq![rv]);
    } else {
        lemma_batch_rules_for_listener(rv, k - 1);
        assert(batch[k - 1] == (TableItemView::Collaborator {
            pk: rv.collaborators[k - 2],
            sk: rv.id,
            listener_pk: lk,
        }));
        assert(rules_for_listener_upto(batch, lk, k) == rules_for_listener_upto(batch, lk, k - 1)
            + Seq::<ResponseView>::empty());
        assert(rules_for_listener_upto(batch, lk, k) =~= seq![rv]);
    }
}

/// A created rule is visible to the read paths: writing the record set of a
/// rule whose keys are all fresh makes the id lookup return exactly that
/// rule, and appends it to its listener's query.
pub proof fn lemma_created_rule_is_found(items: Seq<TableItemView>, rv: ResponseView)
    requires
        rules_with_id(items, rv.id).len() == 0,
        !has_key(items, spec_listener_key(rv.listener), rv.id),
        forall|k: int|
            0 <= k < rv.collaborators.len() ==> !has_key(
                items,
                #[trigger] rv.collaborators[k],
                rv.id,
            ),
        forall|k: int|
            0 <= k < rv.collaborators.len() ==> #[trigger] rv.collaborators[k]
                != spec_listener_key(rv.listener),
        forall|i: int, j: int|
            0 <= i < j < rv.collaborators.len() ==> rv.collaborators[i] != rv.collaborators[j],
    ensures
        rules_with_id(put_seq(items, spec_table_items(rv)), rv.id) =~= seq![rv],
        rules_for_listener(put_seq(items, spec_table_items(rv)), spec_listener_key(rv.listener))
            =~= rules_for_listener(items, spec_listener_key(rv.listener)) + seq![rv],
{
    let batch = spec_table_items(rv);
    let lk = spec_listener_key(rv.listener);
    assert(batch[0] == (TableItemView::Response { pk: lk, sk: rv.id, response: rv }));
    assert forall|i: int|
        0 <= i < batch.len() implies !has_key(items, (#[trigger] batch[i]).pk(), batch[i].sk()) by {
        if i >= 1 {
            assert(batch[i] == (TableItemView::Collaborator {
                pk: rv.collaborators[i - 1],
                sk: rv.id,
                listener_pk: lk,
            }));
        }
    }
    assert forall|i: int, j: int|
        0 <= i < j < batch.len() implies !((#[trigger] batch[i]).pk() == (#[trigger] batch[j]).pk()
        && batch[i].sk() == batch[j].sk()) by {
        if i >= 1 {
            assert(batch[i].pk() == rv.collaborators[i - 1]);
        }
        if j >= 1 {
            assert(batch[j].pk() == rv.collaborators[j - 1]);
        }
    }
    lemma_put_seq_all_fresh(items, batch);
    lemma_rules_with_id_concat(items, batch, rv.id);
    lemma_batch_rules_with_id(rv, batch.len() as int);
    assert(rules_with_id(put_seq(items, batch), rv.id) =~= seq![rv]);
    lemma_rules_for_listener_concat(items, batch, lk);
    lemma_batch_rules_for_listener(rv, batch.len() as int);
    assert(rules_for_listener(put_seq(items, batch), lk) =~= rules_for_listener(items, lk) + seq![
        rv,
    ]);
}

} // verus!
