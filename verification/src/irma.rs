//! The vocabulary of the credential server: the request that opens a
//! disclosure session, the statuses of a session, and the proof that ends
//! one.

use crate::clock::{unix_time, CLOCK_END};
use crate::errors::Error;
use crate::json::{
    bool_json, bool_text, int_decimal, int_text, json_string_groups, json_string_text, json_text,
    nat_decimal, nat_text, optional_string_text, parse_string_groups,
};
use crate::jwt::{encode_rsa, rs256_token, signed};
use crate::text::{join, join_text, str_eq};
use vstd::prelude::*;
use vstd::string::*;

verus! {

/// The verdict of the credential server on a disclosure.
#[derive(Clone, Copy, Debug, PartialEq, Eq, Structural)]
pub enum ProofStatus {
    Valid,
    Invalid,
    InvalidTimestamp,
    UnmatchedRequest,
    MissingAttributes,
    Expired,
}

/// Where a disclosure session stands, as the credential server reports it.
#[derive(Clone, Copy, Debug, PartialEq, Eq, Structural)]
pub enum SessionStatus {
    Initialized,
    Connected,
    Cancelled,
    Done,
    Timeout,
}

impl SessionStatus {
    /// The name of the status on the wire.
    pub open spec fn name_text(self) -> Seq<char> {
        match self {
            SessionStatus::Initialized => "INITIALIZED"@,
            SessionStatus::Connected => "CONNECTED"@,
            SessionStatus::Cancelled => "CANCELLED"@,
            SessionStatus::Done => "DONE"@,
            SessionStatus::Timeout => "TIMEOUT"@,
        }
    }

    /// The status that a name stands for, if it is the name of one.
    pub open spec fn from_name(name: Seq<char>) -> Option<SessionStatus> {
        if name == "INITIALIZED"@ {
            Some(SessionStatus::Initialized)
        } else if name == "CONNECTED"@ {
            Some(SessionStatus::Connected)
        } else if name == "CANCELLED"@ {
            Some(SessionStatus::Cancelled)
        } else if name == "DONE"@ {
            Some(SessionStatus::Done)
        } else if name == "TIMEOUT"@ {
            Some(SessionStatus::Timeout)
        } else {
            None
        }
    }

    /// What the error says of a name that stands for no status.
    pub open spec fn unknown_name_text(name: Seq<char>) -> Seq<char> {
        "Could not parse SSE to sessions status '"@ + name + "'"@
    }

    /// Whether the status ends a session without a proof: the server has
    /// cancelled the session or let it time out.
    pub open spec fn is_abandoned(self) -> bool {
        self == SessionStatus::Cancelled || self == SessionStatus::Timeout
    }

    /// The name of the status on the wire.
    pub fn to_string(&self) -> (r: String)
        ensures
            r@ == self.name_text(),
    {
        match self {
            SessionStatus::Initialized => "INITIALIZED".to_owned(),
            SessionStatus::Connected => "CONNECTED".to_owned(),
            SessionStatus::Cancelled => "CANCELLED".to_owned(),
            SessionStatus::Done => "DONE".to_owned(),
            SessionStatus::Timeout => "TIMEOUT".to_owned(),
        }
    }

    /// Reads a status from its name. Any other text is a parse error that
    /// quotes it.
    pub fn try_from(status: String) -> (r: Result<SessionStatus, Error>)
        ensures
            match Self::from_name(status@) {
                Some(parsed) => r == Ok::<SessionStatus, Error>(parsed),
                None => r matches Err(Error::ParseError(reason)) && reason@
                    == Self::unknown_name_text(status@),
            },
    {
        let name = status.as_str();
        if str_eq(name, "INITIALIZED") {
            Ok(SessionStatus::Initialized)
        } else if str_eq(name, "CONNECTED") {
            Ok(SessionStatus::Connected)
        } else if str_eq(name, "CANCELLED") {
            Ok(SessionStatus::Cancelled)
        } else if str_eq(name, "DONE") {
            Ok(SessionStatus::Done)
        } else if str_eq(name, "TIMEOUT") {
            Ok(SessionStatus::Timeout)
        } else {
            let mut reason = "Could not parse SSE to sessions status '".to_owned();
            reason.append(name);
            reason.append("'");
            Err(Error::ParseError(reason))
        }
    }
}

/// Every status is read back from its own name.
pub proof fn lemma_status_name_round_trip(status: SessionStatus)
    ensures
        SessionStatus::from_name(status.name_text()) == Some(status),
{
    reveal_strlit("INITIALIZED");
    reveal_strlit("CONNECTED");
    reveal_strlit("CANCELLED");
    reveal_strlit("DONE");
    reveal_strlit("TIMEOUT");
    let name = status.name_text();
    match status {
        SessionStatus::Initialized => {},
        SessionStatus::Connected => {
            assert(name[0] == 'C' && name[1] == 'O');
        },
        SessionStatus::Cancelled => {
            assert(name[0] == 'C' && name[1] == 'A');
        },
        SessionStatus::Done => {
            assert(name[0] == 'D');
        },
        SessionStatus::Timeout => {
            assert(name[0] == 'T');
        },
    }
}

/// Only the name of a status is read as that status.
pub proof fn lemma_status_name_is_unique(name: Seq<char>, status: SessionStatus)
    requires
        SessionStatus::from_name(name) == Some(status),
    ensures
        name == status.name_text(),
{
}

/// The attributes that a proof discloses, by their identifiers. No
/// identifier occurs twice.
#[derive(Debug)]
pub struct IrmaAttributes {
    entries: Vec<(String, String)>,
}

impl IrmaAttributes {
    /// Whether some entry has this identifier.
    pub closed spec fn has(&self, key: Seq<char>) -> bool {
        exists|i: int| 0 <= i < self.entries@.len() && (#[trigger] self.entries@[i]).0@ == key
    }

    spec fn index_of(&self, key: Seq<char>) -> int {
        choose|i: int| 0 <= i < self.entries@.len() && (#[trigger] self.entries@[i]).0@ == key
    }

    /// The number of attributes.
    pub closed spec fn count(&self) -> nat {
        self.entries@.len()
    }

    /// The identifier of the attribute at a place.
    pub closed spec fn key_at(&self, i: int) -> Seq<char> {
        self.entries@[i].0@
    }

    /// No identifier occurs twice.
    pub closed spec fn wf(&self) -> bool {
        forall|i: int, j: int|
            0 <= i < j < self.entries@.len() ==> (#[trigger] self.entries@[i]).0@ != (
            #[trigger] self.entries@[j]).0@
    }

    /// An empty set of attributes.
    pub fn new() -> (r: Self)
        ensures
            r.wf(),
            r@ == Map::<Seq<char>, Seq<char>>::empty(),
            r.count() == 0,
    {
        let r = IrmaAttributes { entries: Vec::new() };
        assert(r@ =~= Map::<Seq<char>, Seq<char>>::empty());
        r
    }

    fn position(&self, key: &str) -> (r: Option<usize>)
        requires
            self.wf(),
        ensures
            match r {
                Some(i) => i < self.entries@.len() && self.entries@[i as int].0@ == key@
                    && self.has(key@) && self.index_of(key@) == i,
                None => !self.has(key@),
            },
    {
        let mut i: usize = 0;
        while i < self.entries.len()
            invariant
                self.wf(),
                i <= self.entries@.len(),
                forall|j: int| 0 <= j < i ==> (#[trigger] self.entries@[j]).0@ != key@,
            decreases self.entries@.len() - i,
        {
            if str_eq(self.entries[i].0.as_str(), key) {
                assert(self.entries@[i as int].0@ == key@);
                return Some(i);
            }
            i += 1;
        }
        None
    }

    /// The number of attributes.
    pub fn len(&self) -> (r: usize)
        ensures
            r == self.count(),
    {
        self.entries.len()
    }

    /// The attribute at a place, as its identifier and its value. Each
    /// attribute has one place below [`len`](Self::len).
    pub fn entry(&self, i: usize) -> (r: (&str, &str))
        requires
            self.wf(),
            i < self.count(),
        ensures
            self@.contains_key(r.0@),
            self@[r.0@] == r.1@,
            r.0@ == self.key_at(i as int),
    {
        let entry = &self.entries[i];
        assert(self.entries@[i as int].0@ == entry.0@);
        assert(self.index_of(entry.0@) == i);
        (entry.0.as_str(), entry.1.as_str())
    }

    /// The value disclosed for an identifier, if there is one.
    pub fn get(&self, key: &str) -> (r: Option<&String>)
        requires
            self.wf(),
        ensures
            match r {
                Some(value) => self@.contains_key(key@) && self@[key@] == value@,
                None => !self@.contains_key(key@),
            },
    {
        match self.position(key) {
            Some(i) => Some(&self.entries[i].1),
            None => None,
        }
    }

    /// Sets the value disclosed for an identifier, in place of an earlier
    /// one if there was one.
    pub fn insert(&mut self, key: String, value: String)
        requires
            old(self).wf(),
        ensures
            final(self).wf(),
            final(self)@ == old(self)@.insert(key@, value@),
    {
        let ghost before = *self;
        match self.position(key.as_str()) {
            Some(i) => {
                self.entries[i] = (key, value);
            },
            None => {
                self.entries.push((key, value));
            },
        }
        proof {
            let after = *self;
            assert forall|k: Seq<char>| after.has(k) <==> (before.has(k) || k == key@) by {
                if before.has(k) {
                    let j = before.index_of(k);
                    assert(after.entries@[j].0@ == k);
                }
                if k == key@ {
                    let j = if before.has(k) {
                        before.index_of(k)
                    } else {
                        before.entries@.len() as int
                    };
                    assert(after.entries@[j].0@ == k);
                }
                if after.has(k) {
                    let j = after.index_of(k);
                    if k != key@ {
                        assert(before.entries@[j].0@ == k);
                    }
                }
            }
            assert forall|k: Seq<char>| after.has(k) implies after@[k] == before@.insert(
                key@,
                value@,
            )[k] by {
                let j = after.index_of(k);
                if k != key@ {
                    assert(before.entries@[j].0@ == k);
                    assert(before.index_of(k) == j);
                }
            }
            assert(after@ =~= before@.insert(key@, value@));
        }
    }
}

impl View for IrmaAttributes {
    type V = Map<Seq<char>, Seq<char>>;

    closed spec fn view(&self) -> Map<Seq<char>, Seq<char>> {
        Map::new(
            |key: Seq<char>| self.has(key),
            |key: Seq<char>| self.entries@[self.index_of(key)].1@,
        )
    }
}

/// The values that a proof discloses for a list of identifiers, in the
/// order of the list. An identifier without a value is passed over.
pub open spec fn disclosed(attributes: Map<Seq<char>, Seq<char>>, names: Seq<Seq<char>>) -> Seq<
    Seq<char>,
> {
    names.filter(|name: Seq<char>| attributes.contains_key(name)).map_values(
        |name: Seq<char>| attributes[name],
    )
}

/// The identity that a proof gives: the values that it discloses for the
/// configured identifiers, group after group, with one space between
/// neighbours.
pub open spec fn identity_text(
    attributes: Map<Seq<char>, Seq<char>>,
    groups: Seq<Seq<Seq<char>>>,
) -> Seq<char> {
    join_text(disclosed(attributes, groups.flatten()), " "@)
}

proof fn lemma_disclosed_push(
    attributes: Map<Seq<char>, Seq<char>>,
    names: Seq<Seq<char>>,
    name: Seq<char>,
)
    ensures
        disclosed(attributes, names.push(name)) == if attributes.contains_key(name) {
            disclosed(attributes, names).push(attributes[name])
        } else {
            disclosed(attributes, names)
        },
{
    let known = |name: Seq<char>| attributes.contains_key(name);
    let value = |name: Seq<char>| attributes[name];
    reveal(Seq::filter);
    assert(names.push(name).drop_last() =~= names);
    if attributes.contains_key(name) {
        assert(names.push(name).filter(known) == names.filter(known).push(name));
        assert(names.filter(known).push(name).map_values(value) =~= names.filter(
            known,
        ).map_values(value).push(attributes[name]));
    }
}

proof fn lemma_flatten_take(groups: Seq<Seq<Seq<char>>>, g: int)
    requires
        0 <= g < groups.len(),
    ensures
        groups.take(g + 1).flatten() == groups.take(g).flatten() + groups[g],
{
    groups.take(g + 1).lemma_flatten_and_flatten_alt_are_equivalent();
    groups.take(g).lemma_flatten_and_flatten_alt_are_equivalent();
    assert(groups.take(g + 1).drop_last() =~= groups.take(g));
}

/// The claims of the signed proof that the credential server hands out at
/// the end of a session.
#[derive(Debug)]
pub struct IrmaProofPayload {
    attributes: IrmaAttributes,
    exp: i64,
    iat: i64,
    iss: String,
    status: ProofStatus,
    sub: String,
}

impl IrmaProofPayload {
    /// The attributes are well formed.
    pub closed spec fn wf(&self) -> bool {
        self.attributes.wf()
    }

    /// The verdict of the credential server.
    pub closed spec fn status_spec(&self) -> ProofStatus {
        self.status
    }

    /// The disclosed attributes, by identifier.
    pub closed spec fn attributes_spec(&self) -> Map<Seq<char>, Seq<char>> {
        self.attributes@
    }

    /// The second at which the proof expires.
    pub closed spec fn exp_spec(&self) -> i64 {
        self.exp
    }

    /// The second at which the proof was issued.
    pub closed spec fn iat_spec(&self) -> i64 {
        self.iat
    }

    /// Who issued the proof.
    pub closed spec fn iss_spec(&self) -> Seq<char> {
        self.iss@
    }

    /// What the proof is about.
    pub closed spec fn sub_spec(&self) -> Seq<char> {
        self.sub@
    }

    /// The claims of a proof.
    pub fn new(
        attributes: IrmaAttributes,
        exp: i64,
        iat: i64,
        iss: String,
        status: ProofStatus,
        sub: String,
    ) -> (r: Self)
        requires
            attributes.wf(),
        ensures
            r.wf(),
            r.status_spec() == status,
            r.attributes_spec() == attributes@,
            r.exp_spec() == exp,
            r.iat_spec() == iat,
            r.iss_spec() == iss@,
            r.sub_spec() == sub@,
    {
        IrmaProofPayload { attributes, exp, iat, iss, status, sub }
    }

    /// The verdict of the credential server.
    #[verifier::when_used_as_spec(status_spec)]
    pub fn status(&self) -> (r: ProofStatus)
        ensures
            r == self.status_spec(),
    {
        self.status
    }

    /// The disclosed attributes.
    pub fn attributes(&self) -> (r: &IrmaAttributes)
        ensures
            r@ == self.attributes_spec(),
            self.wf() ==> r.wf(),
    {
        &self.attributes
    }

    /// The second at which the proof expires.
    #[verifier::when_used_as_spec(exp_spec)]
    pub fn exp(&self) -> (r: i64)
        ensures
            r == self.exp_spec(),
    {
        self.exp
    }

    /// The second at which the proof was issued.
    #[verifier::when_used_as_spec(iat_spec)]
    pub fn iat(&self) -> (r: i64)
        ensures
            r == self.iat_spec(),
    {
        self.iat
    }

    /// Who issued the proof.
    pub fn iss(&self) -> (r: &str)
        ensures
            r@ == self.iss_spec(),
    {
        self.iss.as_str()
    }

    /// What the proof is about.
    pub fn sub(&self) -> (r: &str)
        ensures
            r@ == self.sub_spec(),
    {
        self.sub.as_str()
    }

    /// The identity that the proof gives under the configured groups of
    /// attribute identifiers.
    pub fn identity(&self, groups: &Vec<Vec<String>>) -> (r: String)
        requires
            self.wf(),
        ensures
            r@ == identity_text(self.attributes_spec(), groups.deep_view()),
    {
        let ghost attributes = self.attributes@;
        let mut values: Vec<String> = Vec::new();
        let mut g: usize = 0;
        assert(values.deep_view() =~= disclosed(attributes, groups.deep_view().take(0).flatten()))
            by {
            reveal(Seq::filter);
        }
        while g < groups.len()
            invariant
                self.wf(),
                attributes == self.attributes@,
                g <= groups.len(),
                values.deep_view() == disclosed(
                    attributes,
                    groups.deep_view().take(g as int).flatten(),
                ),
            decreases groups.len() - g,
        {
            let group = &groups[g];
            let ghost earlier = groups.deep_view().take(g as int).flatten();
            let mut a: usize = 0;
            assert(earlier + group.deep_view().take(0) =~= earlier);
            while a < group.len()
                invariant
                    self.wf(),
                    attributes == self.attributes@,
                    a <= group.len(),
                    values.deep_view() == disclosed(
                        attributes,
                        earlier + group.deep_view().take(a as int),
                    ),
                decreases group.len() - a,
            {
                proof {
                    let seen = earlier + group.deep_view().take(a as int);
                    assert(earlier + group.deep_view().take(a + 1) =~= seen.push(group[a as int]@));
                    lemma_disclosed_push(attributes, seen, group[a as int]@);
                }
                let ghost collected = values.deep_view();
                if let Some(part) = self.attributes.get(group[a].as_str()) {
                    values.push(part.clone());
                    assert(values.deep_view() =~= collected.push(part@));
                }
                a += 1;
            }
            proof {
                assert(group.deep_view().take(group.len() as int) =~= group.deep_view());
                assert(groups.deep_view()[g as int] == group.deep_view());
                lemma_flatten_take(groups.deep_view(), g as int);
            }
            g += 1;
        }
        proof {
            assert(groups.deep_view().take(groups.len() as int) =~= groups.deep_view());
        }
        join(&values, " ")
    }

    /// Checks the verdict and derives the identity. `attributes_json` is the
    /// configured groups of attribute identifiers, a JSON array of arrays of
    /// strings.
    ///
    /// A proof that is not valid is refused before the configuration is
    /// looked at.
    pub fn verify(&self, attributes_json: &str) -> (r: Result<String, Error>)
        requires
            self.wf(),
        ensures
            match r {
                Ok(identity) => {
                    &&& self.status_spec() == ProofStatus::Valid
                    &&& json_string_groups(attributes_json@) matches Some(groups)
                    &&& identity@ == identity_text(self.attributes_spec(), groups)
                },
                Err(Error::InvalidProofStatus) => self.status_spec() != ProofStatus::Valid,
                Err(Error::SerializationError(_)) => self.status_spec() == ProofStatus::Valid
                    && json_string_groups(attributes_json@) is None,
                Err(_) => false,
            },
    {
        if self.status != ProofStatus::Valid {
            return Err(Error::InvalidProofStatus);
        }
        match parse_string_groups(attributes_json) {
            Ok(groups) => Ok(self.identity(&groups)),
            Err(e) => Err(Error::SerializationError(e)),
        }
    }
}

/// An attribute that is asked for with a condition on its value.
#[derive(Debug)]
pub struct SpecificAttribute {
    attribute_type: String,
    value: Option<String>,
    not_null: bool,
}

impl SpecificAttribute {
    /// The identifier of the attribute.
    pub closed spec fn type_spec(&self) -> Seq<char> {
        self.attribute_type@
    }

    /// The value that the attribute has to have, if one is asked for.
    pub closed spec fn value_spec(&self) -> Option<Seq<char>> {
        match self.value {
            Some(value) => Some(value@),
            None => None,
        }
    }

    /// Whether the attribute has to have a value at all.
    pub closed spec fn not_null_spec(&self) -> bool {
        self.not_null
    }

    /// The request as one JSON object.
    pub open spec fn text(&self) -> Seq<char> {
        "{\"type\":"@ + json_string_text(self.type_spec()) + ",\"value\":"@ + optional_string_text(
            self.value_spec(),
        ) + ",\"not_null\":"@ + bool_text(self.not_null_spec()) + "}"@
    }

    /// A request for the attribute `attribute_type`, with the value that it
    /// has to have, if any, and whether it may be absent.
    pub fn new(attribute_type: String, value: Option<String>, not_null: bool) -> (r: Self)
        ensures
            r.type_spec() == attribute_type@,
            r.value_spec() == match value {
                Some(value) => Some(value@),
                None => None,
            },
            r.not_null_spec() == not_null,
    {
        SpecificAttribute { attribute_type, value, not_null }
    }

    /// The identifier of the attribute.
    pub fn attribute_type(&self) -> (r: &str)
        ensures
            r@ == self.type_spec(),
    {
        self.attribute_type.as_str()
    }

    /// The value that the attribute has to have, if one is asked for.
    pub fn value(&self) -> (r: Option<&str>)
        ensures
            match r {
                Some(value) => self.value_spec() == Some(value@),
                None => self.value_spec() is None,
            },
    {
        match &self.value {
            Some(value) => Some(value.as_str()),
            None => None,
        }
    }

    /// Whether the attribute has to have a value at all.
    pub fn not_null(&self) -> (r: bool)
        ensures
            r == self.not_null_spec(),
    {
        self.not_null
    }

    /// Writes the request as JSON.
    pub fn to_json(&self) -> (r: String)
        ensures
            r@ == self.text(),
    {
        let attribute_type = json_text(self.attribute_type.as_str());
        let value = match &self.value {
            Some(value) => json_text(value.as_str()),
            None => "null".to_owned(),
        };
        let mut text = "{\"type\":".to_owned();
        text.append(attribute_type.as_str());
        text.append(",\"value\":");
        text.append(value.as_str());
        text.append(",\"not_null\":");
        text.append(bool_json(self.not_null));
        text.append("}");
        text
    }
}

/// One attribute of a disclosure request.
#[derive(Debug)]
pub enum Attribute {
    /// The attribute with this identifier, whatever its value.
    Simple(String),
    /// An attribute with a condition on its value.
    _Specific(SpecificAttribute),
}

impl Attribute {
    /// The attribute as JSON text.
    pub open spec fn text(&self) -> Seq<char> {
        match self {
            Attribute::Simple(identifier) => json_string_text(identifier@),
            Attribute::_Specific(specific) => specific.text(),
        }
    }

    /// Writes the attribute as JSON.
    pub fn to_json(&self) -> (r: String)
        ensures
            r@ == self.text(),
    {
        match self {
            Attribute::Simple(identifier) => json_text(identifier.as_str()),
            Attribute::_Specific(specific) => specific.to_json(),
        }
    }
}

/// A disjunction of conjunctions of attributes, for each thing that is
/// asked for.
pub type ConDisCon = Vec<Vec<Vec<Attribute>>>;

/// A JSON array of items that are given as JSON text.
pub open spec fn array_text(items: Seq<Seq<char>>) -> Seq<char> {
    "["@ + join_text(items, ","@) + "]"@
}

/// A conjunction of attributes as a JSON array.
pub open spec fn conjunction_text(conjunction: Seq<Attribute>) -> Seq<char> {
    array_text(conjunction.map_values(|attribute: Attribute| attribute.text()))
}

/// A disjunction of conjunctions as a JSON array.
pub open spec fn disjunction_text(disjunction: Seq<Vec<Attribute>>) -> Seq<char> {
    array_text(disjunction.map_values(|conjunction: Vec<Attribute>| conjunction_text(conjunction@)))
}

/// The whole of what a request asks for as a JSON array.
pub open spec fn condiscon_text(condiscon: Seq<Vec<Vec<Attribute>>>) -> Seq<char> {
    array_text(
        condiscon.map_values(|disjunction: Vec<Vec<Attribute>>| disjunction_text(disjunction@)),
    )
}

/// Writes a JSON array around items that are given as JSON text.
pub fn array_json(items: &Vec<String>) -> (r: String)
    ensures
        r@ == array_text(items.deep_view()),
{
    let mut text = "[".to_owned();
    let inner = join(items, ",");
    text.append(inner.as_str());
    text.append("]");
    text
}

/// Writes a conjunction of attributes as a JSON array.
pub fn conjunction_json(conjunction: &Vec<Attribute>) -> (r: String)
    ensures
        r@ == conjunction_text(conjunction@),
{
    let ghost item = |attribute: Attribute| attribute.text();
    let mut items: Vec<String> = Vec::new();
    let mut i: usize = 0;
    while i < conjunction.len()
        invariant
            i <= conjunction.len(),
            item == |attribute: Attribute| attribute.text(),
            items.deep_view() == conjunction@.take(i as int).map_values(item),
        decreases conjunction.len() - i,
    {
        let ghost before = items.deep_view();
        items.push(conjunction[i].to_json());
        assert(items.deep_view() =~= before.push(conjunction@[i as int].text()));
        assert(conjunction@.take(i + 1).map_values(item) =~= before.push(
            conjunction@[i as int].text(),
        ));
        i += 1;
    }
    assert(conjunction@.take(conjunction.len() as int) =~= conjunction@);
    array_json(&items)
}

/// Writes a disjunction of conjunctions as a JSON array.
pub fn disjunction_json(disjunction: &Vec<Vec<Attribute>>) -> (r: String)
    ensures
        r@ == disjunction_text(disjunction@),
{
    let ghost item = |conjunction: Vec<Attribute>| conjunction_text(conjunction@);
    let mut items: Vec<String> = Vec::new();
    let mut i: usize = 0;
    while i < disjunction.len()
        invariant
            i <= disjunction.len(),
            item == |conjunction: Vec<Attribute>| conjunction_text(conjunction@),
            items.deep_view() == disjunction@.take(i as int).map_values(item),
        decreases disjunction.len() - i,
    {
        let ghost before = items.deep_view();
        items.push(conjunction_json(&disjunction[i]));
        assert(items.deep_view() =~= before.push(conjunction_text(disjunction@[i as int]@)));
        assert(disjunction@.take(i + 1).map_values(item) =~= before.push(
            conjunction_text(disjunction@[i as int]@),
        ));
        i += 1;
    }
    assert(disjunction@.take(disjunction.len() as int) =~= disjunction@);
    array_json(&items)
}

/// Writes the whole of what a request asks for as a JSON array.
pub fn condiscon_json(condiscon: &ConDisCon) -> (r: String)
    ensures
        r@ == condiscon_text(condiscon@),
{
    let ghost item = |disjunction: Vec<Vec<Attribute>>| disjunction_text(disjunction@);
    let mut items: Vec<String> = Vec::new();
    let mut i: usize = 0;
    while i < condiscon.len()
        invariant
            i <= condiscon.len(),
            item == |disjunction: Vec<Vec<Attribute>>| disjunction_text(disjunction@),
            items.deep_view() == condiscon@.take(i as int).map_values(item),
        decreases condiscon.len() - i,
    {
        let ghost before = items.deep_view();
        items.push(disjunction_json(&condiscon[i]));
        assert(items.deep_view() =~= before.push(disjunction_text(condiscon@[i as int]@)));
        assert(condiscon@.take(i + 1).map_values(item) =~= before.push(
            disjunction_text(condiscon@[i as int]@),
        ));
        i += 1;
    }
    assert(condiscon@.take(condiscon.len() as int) =~= condiscon@);
    array_json(&items)
}

/// The JSON-LD context of a disclosure request.
pub const DISCLOSURE_CONTEXT: &'static str = "https://irma.app/ld/request/disclosure/v2";

/// The subject of the token that carries a disclosure request.
pub const DISCLOSURE_SUBJECT: &'static str = "verification_request";

/// The seconds for which the proof of a session stays valid.
pub const REQUEST_VALIDITY: u64 = 300;

/// The seconds that a wallet has to pick the session up.
pub const REQUEST_TIMEOUT: u64 = 300;

/// A request to the credential server.
#[derive(Debug)]
pub struct IrmaRequest {
    context: &'static str,
    disclose: ConDisCon,
}

impl IrmaRequest {
    /// The JSON-LD context of the request.
    pub closed spec fn context_spec(&self) -> Seq<char> {
        self.context@
    }

    /// What the request asks for.
    pub closed spec fn disclose_spec(&self) -> ConDisCon {
        self.disclose
    }

    /// The claims of the token that carries the request, issued at `now`,
    /// given the JSON text of what it asks for.
    pub open spec fn frame_text(now: int, context: Seq<char>, disclose_json: Seq<char>) -> Seq<
        char,
    > {
        "{\"iat\":"@ + int_text(now) + ",\"sub\":\""@ + DISCLOSURE_SUBJECT@
            + "\",\"sprequest\":{\"validity\":"@ + nat_text(REQUEST_VALIDITY as nat)
            + ",\"timeout\":"@ + nat_text(REQUEST_TIMEOUT as nat)
            + ",\"request\":{\"@context\":\""@ + context + "\",\"disclose\":"@ + disclose_json
            + "}}}"@
    }

    /// The claims of the token that carries the request, issued at `now`.
    pub open spec fn claims_text(&self, now: int) -> Seq<char> {
        Self::frame_text(now, self.context_spec(), condiscon_text(self.disclose_spec()@))
    }

    /// A request to disclose what `cdc` asks for.
    pub fn disclosure(cdc: ConDisCon) -> (r: Self)
        ensures
            r.context_spec() == DISCLOSURE_CONTEXT@,
            r.disclose_spec() == cdc,
    {
        IrmaRequest { context: DISCLOSURE_CONTEXT, disclose: cdc }
    }

    /// The JSON-LD context of the request.
    pub fn context(&self) -> (r: &'static str)
        ensures
            r@ == self.context_spec(),
    {
        self.context
    }

    /// What the request asks for.
    pub fn disclose(&self) -> (r: &ConDisCon)
        ensures
            *r == self.disclose_spec(),
    {
        &self.disclose
    }

    /// Writes the claims of the token that carries the request, issued at
    /// `now`, as JSON.
    pub fn claims_json(&self, now: i64) -> (r: String)
        ensures
            r@ == self.claims_text(now as int),
    {
        let disclose = condiscon_json(&self.disclose);
        let mut text = "{\"iat\":".to_owned();
        text.append(int_decimal(now).as_str());
        text.append(",\"sub\":\"");
        text.append(DISCLOSURE_SUBJECT);
        text.append("\",\"sprequest\":{\"validity\":");
        text.append(nat_decimal(REQUEST_VALIDITY).as_str());
        text.append(",\"timeout\":");
        text.append(nat_decimal(REQUEST_TIMEOUT).as_str());
        text.append(",\"request\":{\"@context\":\"");
        text.append(self.context);
        text.append("\",\"disclose\":");
        text.append(disclose.as_str());
        text.append("}}}");
        text
    }

    /// Signs the request, issued at `now`, with RS256 under the private key
    /// of the application. The header of the token names the application as
    /// `key_id`. It succeeds exactly where the signing crate makes a token of
    /// the key, that name and the claims.
    pub fn as_jwt_at(&self, now: i64, key_pem: &[u8], key_id: &str) -> (r: Result<String, Error>)
        ensures
            signed(r, rs256_token(key_pem@, key_id@, self.claims_text(now as int))),
    {
        let claims = self.claims_json(now);
        encode_rsa(key_pem, key_id, claims.as_str())
    }

    /// Signs the request, issued now by the wall clock, with RS256 under the
    /// private key of the application.
    pub fn as_jwt(&self, key_pem: &[u8], key_id: &str) -> (r: Result<String, Error>)
        ensures
            exists|now: int|
                0 <= now < CLOCK_END && signed(
                    r,
                    rs256_token(key_pem@, key_id@, #[trigger] self.claims_text(now)),
                ),
    {
        let now = unix_time();
        self.as_jwt_at(now, key_pem, key_id)
    }
}

/// What a session with the credential server is for.
#[derive(Clone, Copy, Debug, PartialEq, Eq, Structural)]
pub enum SessionType {
    Disclosing,
    Signing,
    Issuing,
}

impl SessionType {
    /// The name of the kind of session on the wire.
    pub open spec fn name_text(self) -> Seq<char> {
        match self {
            SessionType::Disclosing => "disclosing"@,
            SessionType::Signing => "signing"@,
            SessionType::Issuing => "issuing"@,
        }
    }

    /// The name of the kind of session on the wire.
    pub fn name(self) -> (r: &'static str)
        ensures
            r@ == self.name_text(),
    {
        match self {
            SessionType::Disclosing => "disclosing",
            SessionType::Signing => "signing",
            SessionType::Issuing => "issuing",
        }
    }
}

/// What a wallet needs to join a session: where, and what for.
#[derive(Debug)]
pub struct SessionPointer {
    u: String,
    irma_qr: SessionType,
}

impl SessionPointer {
    /// The address of the session.
    pub closed spec fn url_spec(&self) -> Seq<char> {
        self.u@
    }

    /// What the session is for.
    pub closed spec fn kind_spec(&self) -> SessionType {
        self.irma_qr
    }

    /// The pointer as one JSON object, given the JSON text of the address.
    pub open spec fn frame_text(url_json: Seq<char>, kind: SessionType) -> Seq<char> {
        "{\"u\":"@ + url_json + ",\"irmaqr\":\""@ + kind.name_text() + "\"}"@
    }

    /// The pointer as the JSON text that a QR code shows.
    pub open spec fn text(&self) -> Seq<char> {
        Self::frame_text(json_string_text(self.url_spec()), self.kind_spec())
    }

    /// A pointer to the session at `u`.
    pub fn new(u: String, irma_qr: SessionType) -> (r: Self)
        ensures
            r.url_spec() == u@,
            r.kind_spec() == irma_qr,
    {
        SessionPointer { u, irma_qr }
    }

    /// The address of the session.
    pub fn u(&self) -> (r: &str)
        ensures
            r@ == self.url_spec(),
    {
        self.u.as_str()
    }

    /// What the session is for.
    pub fn irma_qr(&self) -> (r: SessionType)
        ensures
            r == self.kind_spec(),
    {
        self.irma_qr
    }

    /// Frames the pointer around the JSON text of its address.
    pub fn frame(&self, url_json: &str) -> (r: String)
        ensures
            r@ == Self::frame_text(url_json@, self.kind_spec()),
    {
        let mut text = "{\"u\":".to_owned();
        text.append(url_json);
        text.append(",\"irmaqr\":\"");
        text.append(self.irma_qr.name());
        text.append("\"}");
        text
    }

    /// Writes the pointer as JSON.
    pub fn to_json(&self) -> (r: String)
        ensures
            r@ == self.text(),
    {
        let url_json = json_text(self.u.as_str());
        self.frame(url_json.as_str())
    }
}

/// What the credential server answers when a session is started.
#[derive(Debug)]
pub struct SessionResponse {
    /// The token by which the application refers to the session.
    pub token: String,
    /// What a wallet needs to join it.
    pub session_ptr: SessionPointer,
}

} // verus!
