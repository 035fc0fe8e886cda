//! The decisions of the OTP messenger: which queued phone numbers get a
//! message with which code, which queue messages are handed back for retry,
//! and the WhatsApp template message that carries a code.
use crate::attribute::{AttributeModel, Item};
use crate::json::{
    distinct_keys, json_object, json_string, json_string_object, lemma_pairs_map_get, pairs_map,
    push_json_string, string_pairs, TextMap,
};
use crate::verification::{verification_from_item, Verification};
use vstd::prelude::*;

verus! {

/// The elements of a JSON array text, as `serde_json` reads the text into a
/// vector of JSON values: a string element as its text, any other as `None`.
pub uninterp spec fn json_array_texts(text: Seq<char>) -> Option<Seq<Option<Seq<char>>>>;

pub open spec fn option_texts(v: Seq<Option<String>>) -> Seq<Option<Seq<char>>> {
    v.map_values(
        |e: Option<String>|
            match e {
                Some(t) => Some(t@),
                None => None,
            },
    )
}

/// `serde_json::from_str` into a `Vec<serde_json::Value>`, a string element
/// as its text and any other as `None`: the elements are named
/// `json_array_texts`.
#[verifier::external_body]
fn serde_json_elements(text: &str) -> (r: Option<Vec<Option<String>>>)
    ensures
        r is Some <==> json_array_texts(text@) is Some,
        r matches Some(v) ==> option_texts(v@) == json_array_texts(text@)->0,
{
    match serde_json::from_str::<Vec<serde_json::Value>>(text) {
        Ok(v) => Some(
            v.into_iter().map(|e| match e {
                serde_json::Value::String(t) => Some(t),
                _ => None,
            }).collect(),
        ),
        Err(_) => None,
    }
}

/// The phone number that a queue message body names, as a record with a
/// single `phone` field reads it: the `phone` string member of a JSON
/// object, or the one element of a JSON array that holds a single string.
pub open spec fn queued_phone_of(body: Seq<char>) -> Option<Seq<char>> {
    match json_string_object(body) {
        Some(m) => if m.contains_key("phone"@) {
            Some(m["phone"@])
        } else {
            None
        },
        None => match json_array_texts(body) {
            Some(v) => if v.len() == 1 && v[0] is Some {
                v[0]
            } else {
                None
            },
            None => None,
        },
    }
}

/// The phone number that a queue message body names: the `phone` string
/// member of a JSON object, or the single string of a one-element JSON
/// array; `None` for any other body. The body that `auth::queue_message`
/// writes for a phone reads back as that phone.
pub fn queued_phone(body: &str) -> (r: Option<String>)
    ensures
        r matches Some(p) ==> queued_phone_of(body@) == Some(p@),
        r is None ==> queued_phone_of(body@) is None,
        forall|phone: Seq<char>|
            #![trigger json_object(seq![("phone"@, phone)])]
            body@ == json_object(seq![("phone"@, phone)]) ==> (r matches Some(p) && p@ == phone),
{
    proof {
        reveal_strlit("phone");
    }
    let fields = match TextMap::parse(body) {
        Some(f) => f,
        None => {
            proof {
                assert forall|phone: Seq<char>|
                    #![trigger json_object(seq![("phone"@, phone)])]
                    body@ == json_object(seq![("phone"@, phone)]) implies false by {
                    let p = seq![("phone"@, phone)];
                    assert(distinct_keys(p));
                }
            }
            let elements = match serde_json_elements(body) {
                Some(v) => v,
                None => return None,
            };
            if elements.len() == 1 {
                proof {
                    assert(option_texts(elements@)[0] == json_array_texts(body@)->0[0]);
                }
                return match &elements[0] {
                    Some(t) => Some(t.clone()),
                    None => None,
                };
            }
            return None;
        },
    };
    proof {
        assert forall|phone: Seq<char>|
            #![trigger json_object(seq![("phone"@, phone)])]
            body@ == json_object(seq![("phone"@, phone)]) implies fields@.contains_key("phone"@)
                && fields@["phone"@] == phone by {
            let p = seq![("phone"@, phone)];
            assert(distinct_keys(p));
            lemma_pairs_map_get(p, 0);
        }
    }
    match fields.get("phone") {
        Some(t) => Some(t.clone()),
        None => None,
    }
}

/// The phone numbers of a batch of queue records, each with the id of the
/// last record that named it.
pub fn collect_targets(records: &Vec<(String, String)>) -> (r: TextMap)
    ensures
        r@ == pairs_map(string_pairs(records@)),
{
    let mut targets = TextMap::new();
    let n = records.len();
    let mut i: usize = 0;
    while i < n
        invariant
            n == records@.len(),
            i <= n,
            targets@ == pairs_map(string_pairs(records@).take(i as int)),
        decreases n - i,
    {
        let phone = records[i].0.clone();
        let message_id = records[i].1.clone();
        targets.insert(phone, message_id);
        proof {
            let p = string_pairs(records@);
            assert(p.take(i + 1).drop_last() =~= p.take(i as int));
            assert(p.take(i + 1).last() == p[i as int]);
        }
        i = i + 1;
    }
    assert(string_pairs(records@).take(n as int) =~= string_pairs(records@));
    targets
}

/// The codes of the verifications that a batch of items holds, by phone;
/// items that hold no verification are passed over, and a later item for a
/// phone stands in place of an earlier one.
pub open spec fn codes_of(items: Seq<Map<Seq<char>, AttributeModel>>) -> Map<Seq<char>, Seq<char>>
    decreases items.len(),
{
    if items.len() == 0 {
        Map::empty()
    } else {
        match verification_from_item(items.last()) {
            Ok(v) => codes_of(items.drop_last()).insert(v.phone, v.code),
            Err(_) => codes_of(items.drop_last()),
        }
    }
}

pub open spec fn item_views(items: Seq<Item>) -> Seq<Map<Seq<char>, AttributeModel>> {
    items.map_values(|i: Item| i@)
}

/// The codes of the verifications that a batch of items holds, by phone.
pub fn collect_codes(items: &Vec<Item>) -> (r: TextMap)
    ensures
        r@ == codes_of(item_views(items@)),
{
    let mut codes = TextMap::new();
    let n = items.len();
    let mut i: usize = 0;
    while i < n
        invariant
            n == items@.len(),
            i <= n,
            codes@ == codes_of(item_views(items@).take(i as int)),
        decreases n - i,
    {
        let ghost views = item_views(items@);
        proof {
            assert(views.take(i + 1).drop_last() =~= views.take(i as int));
            assert(views.take(i + 1).last() == items@[i as int]@);
        }
        match Verification::from_item(&items[i]) {
            Ok(v) => {
                let Verification { phone, code, created: _, ttl: _ } = v;
                codes.insert(phone.into_inner(), code);
            },
            Err(_) => {},
        }
        i = i + 1;
    }
    assert(item_views(items@).take(n as int) =~= item_views(items@));
    codes
}

/// A message to send: the code for a phone, and the queue record it answers.
#[derive(Debug, Clone, PartialEq, Eq)]
pub struct Dispatch {
    pub phone: String,
    pub code: String,
    pub message_id: String,
}

/// The messages to send for targets (phone, record id), in order: those
/// whose phone has a code.
pub open spec fn dispatches_of(
    targets: Seq<(Seq<char>, Seq<char>)>,
    codes: Map<Seq<char>, Seq<char>>,
) -> Seq<(Seq<char>, Seq<char>, Seq<char>)>
    decreases targets.len(),
{
    if targets.len() == 0 {
        Seq::empty()
    } else {
        let t = targets.last();
        if codes.contains_key(t.0) {
            dispatches_of(targets.drop_last(), codes).push((t.0, codes[t.0], t.1))
        } else {
            dispatches_of(targets.drop_last(), codes)
        }
    }
}

/// The record ids handed back for retry, in order: those whose phone has no code.
pub open spec fn missing_of(
    targets: Seq<(Seq<char>, Seq<char>)>,
    codes: Map<Seq<char>, Seq<char>>,
) -> Seq<Seq<char>>
    decreases targets.len(),
{
    if targets.len() == 0 {
        Seq::empty()
    } else {
        let t = targets.last();
        if codes.contains_key(t.0) {
            missing_of(targets.drop_last(), codes)
        } else {
            missing_of(targets.drop_last(), codes).push(t.1)
        }
    }
}

pub open spec fn dispatch_views(d: Seq<Dispatch>) -> Seq<(Seq<char>, Seq<char>, Seq<char>)> {
    d.map_values(|x: Dispatch| (x.phone@, x.code@, x.message_id@))
}

pub open spec fn text_views(v: Seq<String>) -> Seq<Seq<char>> {
    v.map_values(|s: String| s@)
}

/// For each target phone, a message with its code, or its record handed
/// back for retry when there is no code for it.
pub fn plan_dispatch(targets: &TextMap, codes: &TextMap) -> (r: (Vec<Dispatch>, Vec<String>))
    ensures
        exists|order: Seq<(Seq<char>, Seq<char>)>|
            pairs_map(order) == targets@ && crate::json::distinct_keys(order) && dispatch_views(r.0@)
                == dispatches_of(order, codes@) && text_views(r.1@) == missing_of(order, codes@)
                && dispatch_views(r.0@) == order.filter(has_code(codes@)).map_values(
                message_for(codes@),
            ) && text_views(r.1@) == order.filter(lacks_code(codes@)).map_values(record_of()),
        forall|i: int|
            0 <= i < r.0@.len() ==> targets@.contains_key((#[trigger] r.0@[i]).phone@)
                && targets@[r.0@[i].phone@] == r.0@[i].message_id@ && codes@.contains_key(
                r.0@[i].phone@,
            ) && codes@[r.0@[i].phone@] == r.0@[i].code@,
        forall|k: int|
            0 <= k < r.1@.len() ==> record_without_code(targets@, codes@, (#[trigger] r.1@[k])@),
{
    let entries = targets.entries();
    let ghost order = string_pairs(entries@);
    let mut sends: Vec<Dispatch> = Vec::new();
    let mut missing: Vec<String> = Vec::new();
    let n = entries.len();
    let mut i: usize = 0;
    while i < n
        invariant
            n == entries@.len(),
            order == string_pairs(entries@),
            i <= n,
            dispatch_views(sends@) == dispatches_of(order.take(i as int), codes@),
            text_views(missing@) == missing_of(order.take(i as int), codes@),
        decreases n - i,
    {
        proof {
            assert(order.take(i + 1).drop_last() =~= order.take(i as int));
            assert(order.take(i + 1).last() == order[i as int]);
            assert(order[i as int] == (entries@[i as int].0@, entries@[i as int].1@));
        }
        let phone = &entries[i].0;
        let message_id = &entries[i].1;
        match codes.get(phone.as_str()) {
            Some(code) => {
                let d = Dispatch {
                    phone: phone.clone(),
                    code: code.clone(),
                    message_id: message_id.clone(),
                };
                let ghost before = sends@;
                sends.push(d);
                proof {
                    assert(dispatch_views(sends@) =~= dispatch_views(before).push(
                        (d.phone@, d.code@, d.message_id@),
                    ));
                }
            },
            None => {
                let ghost before = missing@;
                let m = message_id.clone();
                missing.push(m);
                proof {
                    assert(text_views(missing@) =~= text_views(before).push(m@));
                }
            },
        }
        i = i + 1;
    }
    assert(order.take(n as int) =~= order);
    proof {
        lemma_plan_is_split_of_targets(order, codes@);
        lemma_plan_sources(order, codes@);
        let ds = dispatches_of(order, codes@);
        assert forall|i: int| 0 <= i < sends@.len() implies targets@.contains_key(
            (#[trigger] sends@[i]).phone@,
        ) && targets@[sends@[i].phone@] == sends@[i].message_id@ && codes@.contains_key(
            sends@[i].phone@,
        ) && codes@[sends@[i].phone@] == sends@[i].code@ by {
            assert(dispatch_views(sends@)[i] == ds[i]);
            assert(answers_target(order, codes@, ds[i]));
            let d = ds[i];
            let j = choose|j: int|
                0 <= j < order.len() && #[trigger] order[j] == (d.0, d.2) && codes@.contains_key(d.0)
                    && d.1 == codes@[d.0];
            crate::json::lemma_pairs_map_get(order, j);
        }
        let ms = missing_of(order, codes@);
        assert forall|k: int| 0 <= k < missing@.len() implies record_without_code(
            targets@,
            codes@,
            (#[trigger] missing@[k])@,
        ) by {
            assert(text_views(missing@)[k] == ms[k]);
            assert(uncoded_record(order, codes@, ms[k]));
            let j = choose|j: int|
                0 <= j < order.len() && #[trigger] order[j].1 == ms[k] && !codes@.contains_key(
                    order[j].0,
                );
            crate::json::lemma_pairs_map_get(order, j);
            assert(targets@.contains_key(order[j].0) && targets@[order[j].0] == missing@[k]@);
        }
    }
    (sends, missing)
}

/// The record ids whose message could not be sent, in order.
pub open spec fn failed_of(sent: Seq<(Seq<char>, bool)>) -> Seq<Seq<char>>
    decreases sent.len(),
{
    if sent.len() == 0 {
        Seq::empty()
    } else if sent.last().1 {
        failed_of(sent.drop_last())
    } else {
        failed_of(sent.drop_last()).push(sent.last().0)
    }
}

/// The records of a batch handed back for retry: first those whose phone
/// had no code, then those whose message could not be sent.
pub fn batch_failures(missing: Vec<String>, sent: &Vec<(String, bool)>) -> (r: Vec<String>)
    ensures
        text_views(r@) == text_views(missing@) + failed_of(sent@.map_values(|s: (String, bool)| (s.0@, s.1))),
        text_views(r@) == text_views(missing@) + sent@.map_values(|s: (String, bool)| (s.0@, s.1)).filter(
            send_failed(),
        ).map_values(send_record()),
{
    let ghost sv = sent@.map_values(|s: (String, bool)| (s.0@, s.1));
    let mut failures = missing;
    let ghost base = text_views(failures@);
    let n = sent.len();
    let mut i: usize = 0;
    while i < n
        invariant
            n == sent@.len(),
            sv == sent@.map_values(|s: (String, bool)| (s.0@, s.1)),
            i <= n,
            text_views(failures@) == base + failed_of(sv.take(i as int)),
        decreases n - i,
    {
        proof {
            assert(sv.take(i + 1).drop_last() =~= sv.take(i as int));
            assert(sv.take(i + 1).last() == sv[i as int]);
        }
        if !sent[i].1 {
            let ghost before = failures@;
            let id = sent[i].0.clone();
            failures.push(id);
            proof {
                assert(text_views(failures@) =~= text_views(before).push(id@));
            }
        }
        i = i + 1;
    }
    assert(sv.take(n as int) =~= sv);
    proof {
        lemma_failed_are_failed_sends(sv);
    }
    failures
}

/// Whether a target's phone has a code.
pub open spec fn has_code(codes: Map<Seq<char>, Seq<char>>) -> spec_fn((Seq<char>, Seq<char>)) -> bool {
    |t: (Seq<char>, Seq<char>)| codes.contains_key(t.0)
}

/// Whether a target's phone has no code.
pub open spec fn lacks_code(codes: Map<Seq<char>, Seq<char>>) -> spec_fn((Seq<char>, Seq<char>)) -> bool {
    |t: (Seq<char>, Seq<char>)| !codes.contains_key(t.0)
}

/// The message for a target: its phone, the phone's code, the target's own record id.
pub open spec fn message_for(codes: Map<Seq<char>, Seq<char>>) -> spec_fn((Seq<char>, Seq<char>)) -> (
    Seq<char>,
    Seq<char>,
    Seq<char>,
) {
    |t: (Seq<char>, Seq<char>)| (t.0, codes[t.0], t.1)
}

/// The record id of a target.
pub open spec fn record_of() -> spec_fn((Seq<char>, Seq<char>)) -> Seq<char> {
    |t: (Seq<char>, Seq<char>)| t.1
}

/// The planned messages are, in order, one for each target whose phone has
/// a code, carrying that code and the target's own record id; the records
/// handed back are, in order, those of the targets whose phone has no code.
pub proof fn lemma_plan_is_split_of_targets(
    targets: Seq<(Seq<char>, Seq<char>)>,
    codes: Map<Seq<char>, Seq<char>>,
)
    ensures
        dispatches_of(targets, codes) == targets.filter(has_code(codes)).map_values(message_for(codes)),
        missing_of(targets, codes) == targets.filter(lacks_code(codes)).map_values(record_of()),
        dispatches_of(targets, codes).len() + missing_of(targets, codes).len() == targets.len(),
    decreases targets.len(),
{
    reveal(Seq::filter);
    if targets.len() > 0 {
        let rest = targets.drop_last();
        let t = targets.last();
        lemma_plan_is_split_of_targets(rest, codes);
        let fd = rest.filter(has_code(codes));
        let fm = rest.filter(lacks_code(codes));
        if codes.contains_key(t.0) {
            assert(targets.filter(has_code(codes)) == fd.push(t));
            assert(targets.filter(lacks_code(codes)) == fm);
            assert(fd.push(t).map_values(message_for(codes)) =~= fd.map_values(message_for(codes)).push(
                (t.0, codes[t.0], t.1),
            ));
        } else {
            assert(targets.filter(has_code(codes)) == fd);
            assert(targets.filter(lacks_code(codes)) == fm.push(t));
            assert(fm.push(t).map_values(record_of()) =~= fm.map_values(record_of()).push(t.1));
        }
    }
}

/// Some target names the message's phone and record id, and the message
/// carries the code stored for that phone.
pub open spec fn answers_target(
    targets: Seq<(Seq<char>, Seq<char>)>,
    codes: Map<Seq<char>, Seq<char>>,
    d: (Seq<char>, Seq<char>, Seq<char>),
) -> bool {
    exists|j: int|
        0 <= j < targets.len() && #[trigger] targets[j] == (d.0, d.2) && codes.contains_key(d.0)
            && d.1 == codes[d.0]
}

/// Some target whose phone has no code has this record id.
pub open spec fn uncoded_record(
    targets: Seq<(Seq<char>, Seq<char>)>,
    codes: Map<Seq<char>, Seq<char>>,
    id: Seq<char>,
) -> bool {
    exists|j: int| 0 <= j < targets.len() && #[trigger] targets[j].1 == id && !codes.contains_key(targets[j].0)
}

/// Some target whose phone has no code has this record id.
pub open spec fn record_without_code(
    targets: Map<Seq<char>, Seq<char>>,
    codes: Map<Seq<char>, Seq<char>>,
    id: Seq<char>,
) -> bool {
    exists|p: Seq<char>| #[trigger] targets.contains_key(p) && targets[p] == id && !codes.contains_key(p)
}

/// Every planned message answers a target: some target names its phone and
/// its record id, and the message carries the code stored for that phone.
/// Every record handed back is the record of a target whose phone has no code.
pub proof fn lemma_plan_sources(targets: Seq<(Seq<char>, Seq<char>)>, codes: Map<Seq<char>, Seq<char>>)
    ensures
        forall|i: int|
            0 <= i < dispatches_of(targets, codes).len() ==> answers_target(
                targets,
                codes,
                #[trigger] dispatches_of(targets, codes)[i],
            ),
        forall|i: int|
            0 <= i < missing_of(targets, codes).len() ==> uncoded_record(
                targets,
                codes,
                #[trigger] missing_of(targets, codes)[i],
            ),
    decreases targets.len(),
{
    if targets.len() > 0 {
        let rest = targets.drop_last();
        let t = targets.last();
        let n = targets.len() - 1;
        lemma_plan_sources(rest, codes);
        assert(targets[n] == t);
        assert forall|i: int| 0 <= i < dispatches_of(targets, codes).len() implies answers_target(
            targets,
            codes,
            #[trigger] dispatches_of(targets, codes)[i],
        ) by {
            if i < dispatches_of(rest, codes).len() {
                assert(dispatches_of(targets, codes)[i] == dispatches_of(rest, codes)[i]);
                let d = dispatches_of(rest, codes)[i];
                assert(answers_target(rest, codes, d));
                let j = choose|j: int|
                    0 <= j < rest.len() && #[trigger] rest[j] == (d.0, d.2) && codes.contains_key(d.0)
                        && d.1 == codes[d.0];
                assert(targets[j] == rest[j]);
            } else {
                assert(dispatches_of(targets, codes)[i] == (t.0, codes[t.0], t.1));
                assert(targets[n] == (t.0, t.1));
            }
        }
        assert forall|i: int| 0 <= i < missing_of(targets, codes).len() implies uncoded_record(
            targets,
            codes,
            #[trigger] missing_of(targets, codes)[i],
        ) by {
            if i < missing_of(rest, codes).len() {
                assert(missing_of(targets, codes)[i] == missing_of(rest, codes)[i]);
                let id = missing_of(rest, codes)[i];
                assert(uncoded_record(rest, codes, id));
                let j = choose|j: int|
                    0 <= j < rest.len() && #[trigger] rest[j].1 == id && !codes.contains_key(rest[j].0);
                assert(targets[j] == rest[j]);
            } else {
                assert(missing_of(targets, codes)[i] == t.1);
                assert(targets[n].1 == t.1);
            }
        }
    }
}

/// Whether a send failed.
pub open spec fn send_failed() -> spec_fn((Seq<char>, bool)) -> bool {
    |s: (Seq<char>, bool)| !s.1
}

/// The record id of a send.
pub open spec fn send_record() -> spec_fn((Seq<char>, bool)) -> Seq<char> {
    |s: (Seq<char>, bool)| s.0
}

/// The records whose message could not be sent are, in order, the record
/// ids of exactly the sends that failed.
pub proof fn lemma_failed_are_failed_sends(sent: Seq<(Seq<char>, bool)>)
    ensures
        failed_of(sent) == sent.filter(send_failed()).map_values(send_record()),
    decreases sent.len(),
{
    reveal(Seq::filter);
    if sent.len() > 0 {
        let rest = sent.drop_last();
        lemma_failed_are_failed_sends(rest);
        let f = rest.filter(send_failed());
        if !sent.last().1 {
            assert(sent.filter(send_failed()) == f.push(sent.last()));
            assert(f.push(sent.last()).map_values(send_record()) =~= f.map_values(send_record()).push(
                sent.last().0,
            ));
        } else {
            assert(sent.filter(send_failed()) == f);
        }
    }
}

/// The WhatsApp `auth_code` template message that carries a code to a recipient.
pub open spec fn whatsapp_body_text(recipient: Seq<char>, code: Seq<char>) -> Seq<char> {
    "{\"messaging_product\":\"whatsapp\",\"to\":"@ + json_string(recipient)
        + ",\"type\":\"template\",\"template\":{\"name\":\"auth_code\",\"language\":{\"code\":\"en\"},\"components\":[{\"type\":\"body\",\"parameters\":[{\"type\":\"text\",\"text\":"@
        + json_string(code)
        + "}]},{\"type\":\"button\",\"sub_type\":\"url\",\"index\":0,\"parameters\":[{\"type\":\"text\",\"text\":"@
        + json_string(code) + "}]}]}}"@
}

/// The parameters of a template component that carry one text:
/// `"parameters":[{"type":"text","text":...}]`.
pub open spec fn text_parameters(text: Seq<char>) -> Seq<char> {
    "\"parameters\":[{\"type\":\"text\",\"text\":"@ + json_string(text) + "}]"@
}

/// A `body` template component whose one parameter is the text.
pub open spec fn body_component(text: Seq<char>) -> Seq<char> {
    "{\"type\":\"body\","@ + text_parameters(text) + "}"@
}

/// The first URL `button` template component, whose one parameter is the text.
pub open spec fn url_button_component(text: Seq<char>) -> Seq<char> {
    "{\"type\":\"button\",\"sub_type\":\"url\",\"index\":0,"@ + text_parameters(text) + "}"@
}

/// The English `auth_code` template with the given components, written as
/// the elements of a JSON array.
pub open spec fn auth_code_template(components: Seq<char>) -> Seq<char> {
    "{\"name\":\"auth_code\",\"language\":{\"code\":\"en\"},\"components\":["@ + components
        + "]}"@
}

/// A WhatsApp template message to a recipient.
pub open spec fn template_message(recipient: Seq<char>, template: Seq<char>) -> Seq<char> {
    "{\"messaging_product\":\"whatsapp\",\"to\":"@ + json_string(recipient)
        + ",\"type\":\"template\",\"template\":"@ + template + "}"@
}

/// The message that carries a code is the template message to the
/// recipient of the English `auth_code` template with two components: a
/// `body` component and then the first URL `button`, each with the code as
/// its one text parameter.
pub proof fn lemma_whatsapp_body_components(recipient: Seq<char>, code: Seq<char>)
    ensures
        whatsapp_body_text(recipient, code) == template_message(
            recipient,
            auth_code_template(body_component(code) + ","@ + url_button_component(code)),
        ),
{
    let a = "{\"messaging_product\":\"whatsapp\",\"to\":"@;
    let b = ",\"type\":\"template\",\"template\":{\"name\":\"auth_code\",\"language\":{\"code\":\"en\"},\"components\":[{\"type\":\"body\",\"parameters\":[{\"type\":\"text\",\"text\":"@;
    let d = "}]},{\"type\":\"button\",\"sub_type\":\"url\",\"index\":0,\"parameters\":[{\"type\":\"text\",\"text\":"@;
    let e = "}]}]}}"@;
    let b1 = ",\"type\":\"template\",\"template\":"@;
    let n = "{\"name\":\"auth_code\",\"language\":{\"code\":\"en\"},\"components\":["@;
    let p1 = "{\"type\":\"body\","@;
    let q = "\"parameters\":[{\"type\":\"text\",\"text\":"@;
    let p2 = "{\"type\":\"button\",\"sub_type\":\"url\",\"index\":0,"@;
    let close_params = "}]"@;
    let close = "}"@;
    let comma = ","@;
    let close_array = "]}"@;
    reveal_strlit("{\"messaging_product\":\"whatsapp\",\"to\":");
    reveal_strlit(",\"type\":\"template\",\"template\":{\"name\":\"auth_code\",\"language\":{\"code\":\"en\"},\"components\":[{\"type\":\"body\",\"parameters\":[{\"type\":\"text\",\"text\":");
    reveal_strlit("}]},{\"type\":\"button\",\"sub_type\":\"url\",\"index\":0,\"parameters\":[{\"type\":\"text\",\"text\":");
    reveal_strlit("}]}]}}");
    reveal_strlit(",\"type\":\"template\",\"template\":");
    reveal_strlit("{\"name\":\"auth_code\",\"language\":{\"code\":\"en\"},\"components\":[");
    reveal_strlit("{\"type\":\"body\",");
    reveal_strlit("\"parameters\":[{\"type\":\"text\",\"text\":");
    reveal_strlit("{\"type\":\"button\",\"sub_type\":\"url\",\"index\":0,");
    reveal_strlit("}]");
    reveal_strlit("}");
    reveal_strlit(",");
    reveal_strlit("]}");
    assert(b =~= b1 + n + p1 + q);
    assert(d =~= close_params + close + comma + p2 + q);
    assert(e =~= close_params + close + close_array + close);
    let r = json_string(recipient);
    let c = json_string(code);
    let body = p1 + (q + c + close_params) + close;
    let button = p2 + (q + c + close_params) + close;
    let rhs = a + r + b1 + (n + (body + comma + button) + close_array) + close;
    assert(rhs =~= a + r + (b1 + n + p1 + q) + c + (close_params + close + comma + p2 + q) + c + (
    close_params + close + close_array + close));
}

/// The WhatsApp `auth_code` template message that carries a code to a
/// recipient, as JSON text: the code fills the body and the URL button.
pub fn whatsapp_body(recipient: &str, code: &str) -> (r: String)
    ensures
        r@ == whatsapp_body_text(recipient@, code@),
{
    let mut s = String::from_str("{\"messaging_product\":\"whatsapp\",\"to\":");
    push_json_string(&mut s, recipient);
    s.append(
        ",\"type\":\"template\",\"template\":{\"name\":\"auth_code\",\"language\":{\"code\":\"en\"},\"components\":[{\"type\":\"body\",\"parameters\":[{\"type\":\"text\",\"text\":",
    );
    push_json_string(&mut s, code);
    s.append(
        "}]},{\"type\":\"button\",\"sub_type\":\"url\",\"index\":0,\"parameters\":[{\"type\":\"text\",\"text\":",
    );
    push_json_string(&mut s, code);
    s.append("}]}]}}");
    s
}

} // verus!
