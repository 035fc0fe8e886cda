//! JSON text of strings and of flat objects whose values are all strings.
use vstd::prelude::*;

verus! {

pub open spec fn lower_hex_digit(v: int) -> char {
    if v < 10 {
        ('0' as int + v) as char
    } else {
        ('a' as int + v - 10) as char
    }
}

/// How a character stands inside a JSON string: quote, backslash and
/// control characters escaped, every other character as it is.
pub open spec fn json_escape_char(c: char) -> Seq<char> {
    if c == '"' {
        seq!['\\', '"']
    } else if c == '\\' {
        seq!['\\', '\\']
    } else if c == '\x08' {
        seq!['\\', 'b']
    } else if c == '\x0c' {
        seq!['\\', 'f']
    } else if c == '\n' {
        seq!['\\', 'n']
    } else if c == '\r' {
        seq!['\\', 'r']
    } else if c == '\t' {
        seq!['\\', 't']
    } else if (c as int) < 0x20 {
        seq![
            '\\',
            'u',
            '0',
            '0',
            lower_hex_digit(c as int / 16),
            lower_hex_digit(c as int % 16),
        ]
    } else {
        seq![c]
    }
}

/// The escaped characters of a text.
pub open spec fn json_escape(s: Seq<char>) -> Seq<char>
    decreases s.len(),
{
    if s.len() == 0 {
        Seq::empty()
    } else {
        json_escape(s.drop_last()) + json_escape_char(s.last())
    }
}

/// A text as a JSON string literal.
pub open spec fn json_string(s: Seq<char>) -> Seq<char> {
    seq!['"'] + json_escape(s) + seq!['"']
}

/// `"key":"value"` pairs, separated by commas.
pub open spec fn json_members(pairs: Seq<(Seq<char>, Seq<char>)>) -> Seq<char>
    decreases pairs.len(),
{
    if pairs.len() == 0 {
        Seq::empty()
    } else if pairs.len() == 1 {
        json_string(pairs[0].0) + seq![':'] + json_string(pairs[0].1)
    } else {
        json_members(pairs.drop_last()) + seq![','] + json_string(pairs.last().0) + seq![':']
            + json_string(pairs.last().1)
    }
}

/// A JSON object whose members are the pairs, in order, without whitespace.
pub open spec fn json_object(pairs: Seq<(Seq<char>, Seq<char>)>) -> Seq<char> {
    seq!['{'] + json_members(pairs) + seq!['}']
}

/// Appends the escaped form of the character `s[i]`.
fn push_escaped(out: &mut String, s: &str, i: usize)
    requires
        i < s@.len(),
        s@.len() <= usize::MAX,
    ensures
        final(out)@ == old(out)@ + json_escape_char(s@[i as int]),
{
    proof {
        reveal_strlit("\\\"");
        reveal_strlit("\\\\");
        reveal_strlit("\\b");
        reveal_strlit("\\f");
        reveal_strlit("\\n");
        reveal_strlit("\\r");
        reveal_strlit("\\t");
        reveal_strlit("\\u00");
        reveal_strlit("0123456789abcdef");
    }
    let c = s.get_char(i);
    if c == '"' {
        out.append("\\\"");
    } else if c == '\\' {
        out.append("\\\\");
    } else if c == '\x08' {
        out.append("\\b");
    } else if c == '\x0c' {
        out.append("\\f");
    } else if c == '\n' {
        out.append("\\n");
    } else if c == '\r' {
        out.append("\\r");
    } else if c == '\t' {
        out.append("\\t");
    } else if (c as u32) < 0x20 {
        let digits = "0123456789abcdef";
        let v = c as u32;
        let hi = (v / 16) as usize;
        let lo = (v % 16) as usize;
        out.append("\\u00");
        out.append(digits.substring_char(hi, hi + 1));
        out.append(digits.substring_char(lo, lo + 1));
    } else {
        out.append(s.substring_char(i, i + 1));
    }
    assert(final(out)@ =~= old(out)@ + json_escape_char(c));
}

/// Appends a text as a JSON string literal.
pub fn push_json_string(out: &mut String, s: &str)
    ensures
        final(out)@ == old(out)@ + json_string(s@),
{
    proof {
        reveal_strlit("\"");
    }
    let ghost start = out@;
    out.append("\"");
    let n = s.unicode_len();
    let mut i: usize = 0;
    while i < n
        invariant
            n == s@.len(),
            i <= n,
            out@ == start + seq!['"'] + json_escape(s@.take(i as int)),
        decreases n - i,
    {
        push_escaped(out, s, i);
        proof {
            assert(s@.take(i + 1).drop_last() =~= s@.take(i as int));
            assert(out@ =~= start + seq!['"'] + json_escape(s@.take(i + 1)));
        }
        i = i + 1;
    }
    out.append("\"");
    assert(s@.take(n as int) =~= s@);
    assert(out@ =~= start + json_string(s@));
}

/// A text as a JSON string literal.
pub fn json_string_of(s: &str) -> (r: String)
    ensures
        r@ == json_string(s@),
{
    let mut out = String::new();
    push_json_string(&mut out, s);
    assert(out@ =~= json_string(s@));
    out
}

/// The JSON object whose members are the given pairs, in order.
pub fn json_object_of(pairs: &Vec<(String, String)>) -> (r: String)
    ensures
        r@ == json_object(pairs@.map_values(|p: (String, String)| (p.0@, p.1@))),
{
    let ghost model = pairs@.map_values(|p: (String, String)| (p.0@, p.1@));
    proof {
        reveal_strlit("{");
        reveal_strlit("}");
        reveal_strlit(":");
        reveal_strlit(",");
    }
    let mut out = String::from_str("{");
    let n = pairs.len();
    let mut i: usize = 0;
    while i < n
        invariant
            n == pairs@.len(),
            model == pairs@.map_values(|p: (String, String)| (p.0@, p.1@)),
            i <= n,
            out@ == seq!['{'] + json_members(model.take(i as int)),
        decreases n - i,
    {
        proof {
            reveal_strlit(":");
            reveal_strlit(",");
        }
        let ghost before = out@;
        if i > 0 {
            out.append(",");
        }
        let ghost mid = out@;
        let key = pairs[i].0.as_str();
        let value = pairs[i].1.as_str();
        push_json_string(&mut out, key);
        let ghost m2 = out@;
        assert(m2 == mid + json_string(key@));
        out.append(":");
        let ghost m3 = out@;
        assert(m3 =~= m2 + seq![':']);
        push_json_string(&mut out, value);
        proof {
            let t = model.take(i + 1);
            let k = pairs@[i as int].0@;
            let v = pairs@[i as int].1@;
            assert(model[i as int] == (k, v));
            assert(t.drop_last() =~= model.take(i as int));
            assert(t.last() == (k, v));
            assert(out@ =~= mid + json_string(k) + seq![':'] + json_string(v));
            if i == 0 {
                assert(model.take(0) =~= Seq::<(Seq<char>, Seq<char>)>::empty());
                assert(t[0] == (k, v));
                assert(json_members(t) == json_string(k) + seq![':'] + json_string(v));
                assert(out@ =~= seq!['{'] + json_members(t));
            } else {
                assert(json_members(t) == json_members(model.take(i as int)) + seq![','] + json_string(k) + seq![':'] + json_string(v));
                assert(out@ =~= seq!['{'] + json_members(t));
            }
        }
        i = i + 1;
    }
    out.append("}");
    assert(model.take(n as int) =~= model);
    assert(out@ =~= json_object(model));
    out
}

/// The names of the pairs are distinct.
pub open spec fn distinct_keys(pairs: Seq<(Seq<char>, Seq<char>)>) -> bool {
    forall|i: int, j: int| 0 <= i < j < pairs.len() ==> (#[trigger] pairs[i]).0 != (#[trigger] pairs[j]).0
}

/// The map that pairs with distinct names make.
pub open spec fn pairs_map(pairs: Seq<(Seq<char>, Seq<char>)>) -> Map<Seq<char>, Seq<char>>
    decreases pairs.len(),
{
    if pairs.len() == 0 {
        Map::empty()
    } else {
        pairs_map(pairs.drop_last()).insert(pairs.last().0, pairs.last().1)
    }
}

pub open spec fn string_pairs(v: Seq<(String, String)>) -> Seq<(Seq<char>, Seq<char>)> {
    v.map_values(|p: (String, String)| (p.0@, p.1@))
}

/// The members of a JSON object text whose values are strings, as
/// `serde_json` reads the text into a map from strings to JSON values and
/// the members with other values are left out.
pub uninterp spec fn json_string_object(text: Seq<char>) -> Option<Map<Seq<char>, Seq<char>>>;

/// Names with an optional text: the members of a JSON object, a member
/// whose value is not a string holding none.
pub open spec fn option_pairs(v: Seq<(String, Option<String>)>) -> Seq<(Seq<char>, Option<Seq<char>>)> {
    v.map_values(
        |p: (String, Option<String>)|
            (
                p.0@,
                match p.1 {
                    Some(t) => Some(t@),
                    None => None,
                },
            ),
    )
}

/// The names of the members are distinct.
pub open spec fn distinct_names(v: Seq<(Seq<char>, Option<Seq<char>>)>) -> bool {
    forall|i: int, j: int| 0 <= i < j < v.len() ==> (#[trigger] v[i]).0 != (#[trigger] v[j]).0
}

/// The members that hold a text, in order.
pub open spec fn string_members(v: Seq<(Seq<char>, Option<Seq<char>>)>) -> Seq<(Seq<char>, Seq<char>)>
    decreases v.len(),
{
    if v.len() == 0 {
        Seq::empty()
    } else {
        let rest = string_members(v.drop_last());
        match v.last().1 {
            Some(t) => rest.push((v.last().0, t)),
            None => rest,
        }
    }
}

/// `serde_json::from_str` into a `BTreeMap<String, serde_json::Value>`, its
/// entries taken out in the map's order, a string value as its text and any
/// other value as `None`. The string members are named
/// `json_string_object`; the names are distinct. JSON text that is an
/// object of distinct string members, each written with the escapes of
/// `json_escape`, reads back as those members.
#[verifier::external_body]
fn serde_json_members(text: &str) -> (r: Option<Vec<(String, Option<String>)>>)
    ensures
        r is Some <==> json_string_object(text@) is Some,
        r matches Some(v) ==> distinct_names(option_pairs(v@)) && pairs_map(
            string_members(option_pairs(v@)),
        ) == json_string_object(text@)->0,
        r is None ==> forall|p: Seq<(Seq<char>, Seq<char>)>|
            #![trigger json_object(p)]
            !(json_object(p) == text@ && distinct_keys(p)),
        r matches Some(v) ==> forall|p: Seq<(Seq<char>, Seq<char>)>|
            #![trigger json_object(p)]
            json_object(p) == text@ && distinct_keys(p) ==> pairs_map(
                string_members(option_pairs(v@)),
            ) == pairs_map(p),
{
    match serde_json::from_str::<std::collections::BTreeMap<String, serde_json::Value>>(text) {
        Ok(m) => Some(
            m.into_iter().map(|(k, v)| match v {
                serde_json::Value::String(t) => (k, Some(t)),
                _ => (k, None),
            }).collect(),
        ),
        Err(_) => None,
    }
}

/// Texts by name, each name at most once: the string members of a JSON
/// object, or any such table.
#[derive(Debug)]
pub struct TextMap {
    entries: Vec<(String, String)>,
}

impl View for TextMap {
    type V = Map<Seq<char>, Seq<char>>;

    closed spec fn view(&self) -> Map<Seq<char>, Seq<char>> {
        pairs_map(string_pairs(self.entries@))
    }
}

pub proof fn lemma_pairs_map_get(pairs: Seq<(Seq<char>, Seq<char>)>, i: int)
    requires
        distinct_keys(pairs),
        0 <= i < pairs.len(),
    ensures
        pairs_map(pairs).contains_key(pairs[i].0),
        pairs_map(pairs)[pairs[i].0] == pairs[i].1,
    decreases pairs.len(),
{
    if i < pairs.len() - 1 {
        lemma_pairs_map_get(pairs.drop_last(), i);
    }
}

/// Every name of the map is the name of a pair.
pub proof fn lemma_pairs_map_key_source(pairs: Seq<(Seq<char>, Seq<char>)>, key: Seq<char>)
    requires
        pairs_map(pairs).contains_key(key),
    ensures
        exists|i: int| 0 <= i < pairs.len() && (#[trigger] pairs[i]).0 == key,
    decreases pairs.len(),
{
    if pairs.len() > 0 && pairs.last().0 != key {
        lemma_pairs_map_key_source(pairs.drop_last(), key);
        let i = choose|i: int| 0 <= i < pairs.drop_last().len() && (#[trigger] pairs.drop_last()[i]).0 == key;
        assert(pairs[i] == pairs.drop_last()[i]);
    } else if pairs.len() > 0 {
        assert(pairs[pairs.len() - 1].0 == key);
    }
}

proof fn lemma_pairs_map_update(
    pairs: Seq<(Seq<char>, Seq<char>)>,
    i: int,
    e: (Seq<char>, Seq<char>),
)
    requires
        distinct_keys(pairs),
        0 <= i < pairs.len(),
        e.0 == pairs[i].0,
    ensures
        distinct_keys(pairs.update(i, e)),
        pairs_map(pairs.update(i, e)) == pairs_map(pairs).insert(e.0, e.1),
    decreases pairs.len(),
{
    let u = pairs.update(i, e);
    if i == pairs.len() - 1 {
        assert(u.drop_last() =~= pairs.drop_last());
        assert(pairs_map(u) =~= pairs_map(pairs).insert(e.0, e.1));
    } else {
        lemma_pairs_map_update(pairs.drop_last(), i, e);
        assert(u.drop_last() =~= pairs.drop_last().update(i, e));
        assert(pairs_map(u) =~= pairs_map(pairs).insert(e.0, e.1));
    }
}

proof fn lemma_pairs_map_absent(pairs: Seq<(Seq<char>, Seq<char>)>, key: Seq<char>)
    requires
        forall|i: int| 0 <= i < pairs.len() ==> (#[trigger] pairs[i]).0 != key,
    ensures
        !pairs_map(pairs).contains_key(key),
    decreases pairs.len(),
{
    if pairs.len() > 0 {
        lemma_pairs_map_absent(pairs.drop_last(), key);
    }
}

impl TextMap {
    #[verifier::type_invariant]
    closed spec fn well_formed(self) -> bool {
        distinct_keys(string_pairs(self.entries@))
    }

    /// A table with no entries.
    pub fn new() -> (r: TextMap)
        ensures
            r@ == Map::<Seq<char>, Seq<char>>::empty(),
    {
        TextMap { entries: Vec::new() }
    }

    /// Stores a text under a name, in place of what was stored there.
    pub fn insert(&mut self, key: String, value: String)
        ensures
            final(self)@ == old(self)@.insert(key@, value@),
    {
        proof {
            use_type_invariant(&*self);
        }
        let ghost old_pairs = string_pairs(self.entries@);
        let n = self.entries.len();
        let mut i: usize = 0;
        while i < n
            invariant
                n == self.entries@.len(),
                i <= n,
                old_pairs == string_pairs(self.entries@),
                distinct_keys(old_pairs),
                self.entries@ == old(self).entries@,
                forall|j: int| 0 <= j < i ==> (#[trigger] old_pairs[j]).0 != key@,
            decreases n - i,
        {
            assert(old_pairs[i as int] == (self.entries@[i as int].0@, self.entries@[i as int].1@));
            if crate::text::str_eq(self.entries[i].0.as_str(), key.as_str()) {
                let ghost e = (key, value);
                let mut entries = Vec::new();
                std::mem::swap(&mut entries, &mut self.entries);
                entries.set(i, (key, value));
                proof {
                    let np = string_pairs(entries@);
                    assert(np =~= old_pairs.update(i as int, (e.0@, e.1@)));
                    lemma_pairs_map_update(old_pairs, i as int, (e.0@, e.1@));
                }
                self.entries = entries;
                return;
            }
            i = i + 1;
        }
        proof {
            lemma_pairs_map_absent(old_pairs, key@);
        }
        let ghost e = (key, value);
        let mut entries = Vec::new();
        std::mem::swap(&mut entries, &mut self.entries);
        entries.push((key, value));
        proof {
            let np = string_pairs(entries@);
            assert(np =~= old_pairs.push((e.0@, e.1@)));
            assert(np.drop_last() =~= old_pairs);
            assert forall|a: int, b: int| 0 <= a < b < np.len() implies (#[trigger] np[a]).0 != (
            #[trigger] np[b]).0 by {
                if b < np.len() - 1 {
                    assert(np[a] == old_pairs[a]);
                    assert(np[b] == old_pairs[b]);
                } else {
                    assert(np[a] == old_pairs[a]);
                }
            }
        }
        self.entries = entries;
    }

    /// The entries, each name once.
    pub fn entries(&self) -> (r: &Vec<(String, String)>)
        ensures
            distinct_keys(string_pairs(r@)),
            pairs_map(string_pairs(r@)) == self@,
    {
        proof {
            use_type_invariant(self);
        }
        &self.entries
    }

    /// The string members of a JSON object text, members with other values
    /// left out; `None` when the text is not a JSON object.
    pub fn parse(text: &str) -> (r: Option<TextMap>)
        ensures
            r is Some <==> json_string_object(text@) is Some,
            r matches Some(f) ==> f@ == json_string_object(text@)->0,
            forall|p: Seq<(Seq<char>, Seq<char>)>|
                #![trigger json_object(p)]
                json_object(p) == text@ && distinct_keys(p) ==> (r matches Some(f) && f@
                    == pairs_map(p)),
    {
        let members = match serde_json_members(text) {
            Some(v) => v,
            None => return None,
        };
        let ghost all = option_pairs(members@);
        let mut entries: Vec<(String, String)> = Vec::new();
        let n = members.len();
        let mut i: usize = 0;
        while i < n
            invariant
                n == members@.len(),
                all == option_pairs(members@),
                i <= n,
                distinct_names(all),
                string_pairs(entries@) == string_members(all.take(i as int)),
                distinct_keys(string_pairs(entries@)),
                forall|a: int, j: int|
                    0 <= a < entries@.len() && i <= j < n ==> (#[trigger] string_pairs(entries@)[a]).0
                        != (#[trigger] all[j]).0,
            decreases n - i,
        {
            let ghost old_entries = entries@;
            assert(all.take(i + 1).drop_last() =~= all.take(i as int));
            assert(all.take(i + 1).last() == all[i as int]);
            assert(all[i as int].0 == members@[i as int].0@);
            match &members[i].1 {
                Some(t) => {
                    let e = (members[i].0.clone(), t.clone());
                    entries.push(e);
                    proof {
                        assert(all[i as int].1 == Some(t@));
                        assert(string_pairs(entries@) =~= string_pairs(old_entries).push(
                            (e.0@, e.1@),
                        ));
                        let sp = string_pairs(entries@);
                        assert forall|a: int, b: int| 0 <= a < b < sp.len() implies (
                        #[trigger] sp[a]).0 != (#[trigger] sp[b]).0 by {
                            if b < sp.len() - 1 {
                                assert(sp[a] == string_pairs(old_entries)[a]);
                                assert(sp[b] == string_pairs(old_entries)[b]);
                            } else {
                                assert(sp[a] == string_pairs(old_entries)[a]);
                                assert(string_pairs(old_entries)[a].0 != all[i as int].0);
                            }
                        }
                        assert forall|a: int, j: int|
                            0 <= a < entries@.len() && i + 1 <= j < n implies (
                            #[trigger] string_pairs(entries@)[a]).0 != (#[trigger] all[j]).0 by {
                            if a < old_entries.len() {
                                assert(sp[a] == string_pairs(old_entries)[a]);
                                assert(string_pairs(old_entries)[a].0 != all[j].0);
                            } else {
                                assert(sp[a].0 == all[i as int].0);
                            }
                        }
                    }
                },
                None => {
                    proof {
                        assert(all[i as int].1 is None);
                    }
                },
            }
            i = i + 1;
        }
        proof {
            assert(all.take(n as int) =~= all);
        }
        Some(TextMap { entries })
    }

    /// The value of a member.
    pub fn get(&self, key: &str) -> (r: Option<&String>)
        ensures
            self@.contains_key(key@) ==> (r matches Some(v) && v@ == self@[key@]),
            !self@.contains_key(key@) ==> r is None,
    {
        proof {
            use_type_invariant(self);
        }
        let ghost pairs = string_pairs(self.entries@);
        let n = self.entries.len();
        let mut i: usize = 0;
        while i < n
            invariant
                n == self.entries@.len(),
                pairs == string_pairs(self.entries@),
                i <= n,
                distinct_keys(pairs),
                forall|j: int| 0 <= j < i ==> (#[trigger] pairs[j]).0 != key@,
            decreases n - i,
        {
            assert(pairs[i as int] == (self.entries@[i as int].0@, self.entries@[i as int].1@));
            if crate::text::str_eq(self.entries[i].0.as_str(), key) {
                proof {
                    lemma_pairs_map_get(pairs, i as int);
                }
                return Some(&self.entries[i].1);
            }
            i = i + 1;
        }
        proof {
            lemma_pairs_map_absent(pairs, key@);
        }
        None
    }
}

} // verus!
