//! Translation of an RDAP JSON document into the normalized domain record:
//! event dates, status codes, name servers and entity contacts, extracted
//! best-effort — absent or malformed pieces are skipped, never an error.

use vstd::prelude::*;
use vstd::string::StringExecFns;
use crate::json::{Json, spec_get, get_field};
use crate::strutil::{lower_seq, lower_str, str_eq, str_views, opt_str_view};
use crate::lookup::RdapClient;

verus! {

/// A contact taken from a vCard: the five recognized fields, each optional.
#[derive(Debug, Clone)]
pub struct Contact {
    pub name: Option<String>,
    pub organization: Option<String>,
    pub email: Option<String>,
    pub phone: Option<String>,
    pub address: Option<String>,
}

/// Mathematical image of a `Contact`.
pub struct ContactV {
    pub name: Option<Seq<char>>,
    pub organization: Option<Seq<char>>,
    pub email: Option<Seq<char>>,
    pub phone: Option<Seq<char>>,
    pub address: Option<Seq<char>>,
}

impl View for Contact {
    type V = ContactV;

    open spec fn view(&self) -> ContactV {
        ContactV {
            name: opt_str_view(self.name),
            organization: opt_str_view(self.organization),
            email: opt_str_view(self.email),
            phone: opt_str_view(self.phone),
            address: opt_str_view(self.address),
        }
    }
}

/// The view of an optional contact.
pub open spec fn opt_contact_view(o: Option<Contact>) -> Option<ContactV> {
    match o {
        Some(c) => Some(c@),
        None => None,
    }
}

/// The contact with no field set.
pub open spec fn empty_contact() -> ContactV {
    ContactV { name: None, organization: None, email: None, phone: None, address: None }
}

/// No recognized field was found.
pub open spec fn contact_is_empty(c: ContactV) -> bool {
    c.name is None && c.organization is None && c.email is None && c.phone is None
        && c.address is None
}

/// Stores a recognized vCard property name into its contact field;
/// unrecognized names change nothing.
pub open spec fn set_contact_field(c: ContactV, n: Seq<char>, v: Seq<char>) -> ContactV {
    if n == "fn"@ {
        ContactV { name: Some(v), ..c }
    } else if n == "org"@ {
        ContactV { organization: Some(v), ..c }
    } else if n == "email"@ {
        ContactV { email: Some(v), ..c }
    } else if n == "tel"@ {
        ContactV { phone: Some(v), ..c }
    } else if n == "adr"@ {
        ContactV { address: Some(v), ..c }
    } else {
        c
    }
}

/// One vCard property tuple applied to a contact: it must be an array of at
/// least four elements whose first and fourth are strings; otherwise it is
/// skipped.
pub open spec fn apply_prop(c: ContactV, p: Json) -> ContactV {
    match p {
        Json::Arr(elems) => if elems@.len() >= 4 {
            match (elems@[0], elems@[3]) {
                (Json::Str(n), Json::Str(v)) => set_contact_field(c, n@, v@),
                _ => c,
            }
        } else {
            c
        },
        _ => c,
    }
}

/// All vCard properties folded in order; later properties overwrite earlier
/// ones for the same field.
pub open spec fn fold_props(ps: Seq<Json>) -> ContactV
    decreases ps.len(),
{
    if ps.len() == 0 {
        empty_contact()
    } else {
        apply_prop(fold_props(ps.drop_last()), ps.last())
    }
}

/// The property list of an entity's vCard: `vcardArray` must be an array of
/// at least three elements whose third is an array.
pub open spec fn vcard_props(entity: Json) -> Option<Seq<Json>> {
    match spec_get(entity, "vcardArray"@) {
        Some(Json::Arr(items)) => if items@.len() >= 3 {
            match items@[2] {
                Json::Arr(props) => Some(props@),
                _ => None,
            }
        } else {
            None
        },
        _ => None,
    }
}

/// The contact parsed from an entity's vCard; a contact with no recognized
/// field resolves to absent.
pub open spec fn spec_vcard(entity: Json) -> Option<ContactV> {
    match vcard_props(entity) {
        Some(props) => {
            let c = fold_props(props);
            if contact_is_empty(c) {
                None
            } else {
                Some(c)
            }
        },
        None => None,
    }
}

/// The value of a property when it is a well-shaped `fn` tuple.
pub open spec fn prop_fn_value(p: Json) -> Option<Seq<char>> {
    match p {
        Json::Arr(elems) => if elems@.len() >= 4 {
            match (elems@[0], elems@[3]) {
                (Json::Str(n), Json::Str(v)) => if n@ == "fn"@ {
                    Some(v@)
                } else {
                    None
                },
                _ => None,
            }
        } else {
            None
        },
        _ => None,
    }
}

/// First `fn` property value in the list, if any.
pub open spec fn first_fn_value(ps: Seq<Json>) -> Option<Seq<char>>
    decreases ps.len(),
{
    if ps.len() == 0 {
        None
    } else {
        match prop_fn_value(ps[0]) {
            Some(v) => Some(v),
            None => first_fn_value(ps.drop_first()),
        }
    }
}

/// The display name of an entity: a direct `name` string member when
/// present, otherwise the first `fn` property of its vCard.
pub open spec fn spec_extract_name(entity: Json) -> Option<Seq<char>> {
    match spec_get(entity, "name"@) {
        Some(Json::Str(n)) => Some(n@),
        _ => match vcard_props(entity) {
            Some(ps) => first_fn_value(ps),
            None => None,
        },
    }
}

/// The three event dates of a record.
pub struct DatesV {
    pub creation: Option<i64>,
    pub expiration: Option<i64>,
    pub updated: Option<i64>,
}

/// Seconds since the Unix epoch named by an RFC-3339 timestamp string, as
/// chrono reads it; absent when the string is not a valid RFC-3339 date-time.
/// A function of the string alone.
pub uninterp spec fn rfc3339_of(s: Seq<char>) -> Option<i64>;

/// Relies on `chrono::DateTime::parse_from_rfc3339` and
/// `chrono::DateTime::timestamp`: the instant an RFC-3339 string names, as
/// seconds since the Unix epoch; a function of the string alone.
#[verifier::external_body]
fn parse_rfc3339_secs(s: &str) -> (r: Option<i64>)
    ensures
        r == rfc3339_of(s@),
{
    match chrono::DateTime::parse_from_rfc3339(s) {
        Ok(d) => Some(d.timestamp()),
        Err(_) => None,
    }
}

/// One event applied to the dates: the entry needs an `eventAction` string,
/// an `eventDate` string and a parsable date; the lower-cased action picks
/// the field, unrecognized actions are ignored.
pub open spec fn apply_event(d: DatesV, ev: Json) -> DatesV {
    match spec_get(ev, "eventAction"@) {
        Some(Json::Str(action)) => match spec_get(ev, "eventDate"@) {
            Some(Json::Str(ds)) => match rfc3339_of(ds@) {
                Some(t) => {
                    let a = lower_seq(action@);
                    if a == "registration"@ {
                        DatesV { creation: Some(t), ..d }
                    } else if a == "expiration"@ {
                        DatesV { expiration: Some(t), ..d }
                    } else if a == "last changed"@ || a == "last update"@ {
                        DatesV { updated: Some(t), ..d }
                    } else {
                        d
                    }
                },
                None => d,
            },
            _ => d,
        },
        _ => d,
    }
}

/// All events folded in order; for one field, the last entry wins.
pub open spec fn fold_events(evs: Seq<Json>) -> DatesV
    decreases evs.len(),
{
    if evs.len() == 0 {
        DatesV { creation: None, expiration: None, updated: None }
    } else {
        apply_event(fold_events(evs.drop_last()), evs.last())
    }
}

/// The status string contributed by one entry: a plain string itself, or
/// the `description` string of an object.
pub open spec fn status_of(st: Json) -> Option<Seq<char>> {
    match st {
        Json::Str(s) => Some(s@),
        Json::Obj(_) => match spec_get(st, "description"@) {
            Some(Json::Str(d)) => Some(d@),
            _ => None,
        },
        _ => None,
    }
}

/// All status strings, in source order, duplicates kept.
pub open spec fn fold_status(sts: Seq<Json>) -> Seq<Seq<char>>
    decreases sts.len(),
{
    if sts.len() == 0 {
        Seq::empty()
    } else {
        let prev = fold_status(sts.drop_last());
        match status_of(sts.last()) {
            Some(s) => prev.push(s),
            None => prev,
        }
    }
}

/// The lower-cased `ldhName` of one name-server entry, if it has one.
pub open spec fn ns_of(ns: Json) -> Option<Seq<char>> {
    match spec_get(ns, "ldhName"@) {
        Some(Json::Str(n)) => Some(lower_seq(n@)),
        _ => None,
    }
}

/// All name servers, in source order.
pub open spec fn fold_ns(nss: Seq<Json>) -> Seq<Seq<char>>
    decreases nss.len(),
{
    if nss.len() == 0 {
        Seq::empty()
    } else {
        let prev = fold_ns(nss.drop_last());
        match ns_of(nss.last()) {
            Some(s) => prev.push(s),
            None => prev,
        }
    }
}

/// Registrar name and the three role contacts accumulated over entities.
pub struct ContactsV {
    pub registrar: Option<Seq<char>>,
    pub registrant: Option<ContactV>,
    pub admin: Option<ContactV>,
    pub tech: Option<ContactV>,
}

/// Nothing assigned yet.
pub open spec fn empty_contacts() -> ContactsV {
    ContactsV { registrar: None, registrant: None, admin: None, tech: None }
}

/// One role of one entity applied: contact roles are re-assigned each time
/// (last wins); the registrar name is taken only when still unset (first
/// wins).
pub open spec fn apply_role(acc: ContactsV, ent: Json, role: Json) -> ContactsV {
    match role {
        Json::Str(r) => if r@ == "registrant"@ {
            ContactsV { registrant: spec_vcard(ent), ..acc }
        } else if r@ == "administrative"@ {
            ContactsV { admin: spec_vcard(ent), ..acc }
        } else if r@ == "technical"@ {
            ContactsV { tech: spec_vcard(ent), ..acc }
        } else if r@ == "registrar"@ {
            if acc.registrar is None {
                ContactsV { registrar: spec_extract_name(ent), ..acc }
            } else {
                acc
            }
        } else {
            acc
        },
        _ => acc,
    }
}

/// All roles of one entity applied in order.
pub open spec fn apply_roles(acc: ContactsV, ent: Json, roles: Seq<Json>) -> ContactsV
    decreases roles.len(),
{
    if roles.len() == 0 {
        acc
    } else {
        apply_role(apply_roles(acc, ent, roles.drop_last()), ent, roles.last())
    }
}

/// One entity applied: only its `roles` array is consulted.
pub open spec fn apply_entity(acc: ContactsV, ent: Json) -> ContactsV {
    match spec_get(ent, "roles"@) {
        Some(Json::Arr(roles)) => apply_roles(acc, ent, roles@),
        _ => acc,
    }
}

/// All entities applied in order.
pub open spec fn fold_entities(ents: Seq<Json>) -> ContactsV
    decreases ents.len(),
{
    if ents.len() == 0 {
        empty_contacts()
    } else {
        apply_entity(fold_entities(ents.drop_last()), ents.last())
    }
}

/// The normalized result of a successful lookup.
#[derive(Debug, Clone)]
pub struct DomainInfo {
    pub domain: String,
    pub registrar: Option<String>,
    pub creation_date: Option<i64>,
    pub expiration_date: Option<i64>,
    pub updated_date: Option<i64>,
    pub status: Vec<String>,
    pub name_servers: Vec<String>,
    pub registrant: Option<Contact>,
    pub admin_contact: Option<Contact>,
    pub tech_contact: Option<Contact>,
    pub raw_data: Option<String>,
    pub source: String,
}

/// Mathematical image of a `DomainInfo`.
pub struct DomainInfoV {
    pub domain: Seq<char>,
    pub registrar: Option<Seq<char>>,
    pub creation_date: Option<i64>,
    pub expiration_date: Option<i64>,
    pub updated_date: Option<i64>,
    pub status: Seq<Seq<char>>,
    pub name_servers: Seq<Seq<char>>,
    pub registrant: Option<ContactV>,
    pub admin_contact: Option<ContactV>,
    pub tech_contact: Option<ContactV>,
    pub raw_data: Option<Seq<char>>,
    pub source: Seq<char>,
}

impl View for DomainInfo {
    type V = DomainInfoV;

    open spec fn view(&self) -> DomainInfoV {
        DomainInfoV {
            domain: self.domain@,
            registrar: opt_str_view(self.registrar),
            creation_date: self.creation_date,
            expiration_date: self.expiration_date,
            updated_date: self.updated_date,
            status: str_views(self.status@),
            name_servers: str_views(self.name_servers@),
            registrant: opt_contact_view(self.registrant),
            admin_contact: opt_contact_view(self.admin_contact),
            tech_contact: opt_contact_view(self.tech_contact),
            raw_data: opt_str_view(self.raw_data),
            source: self.source@,
        }
    }
}

/// The whole extraction: what `parse_rdap_data` returns for a given queried
/// domain, document and raw text.
pub open spec fn spec_parse_rdap(domain: Seq<char>, doc: Json, raw: Seq<char>) -> DomainInfoV {
    let dates = match spec_get(doc, "events"@) {
        Some(Json::Arr(evs)) => fold_events(evs@),
        _ => DatesV { creation: None, expiration: None, updated: None },
    };
    let status = match spec_get(doc, "status"@) {
        Some(Json::Arr(sts)) => fold_status(sts@),
        _ => Seq::empty(),
    };
    let ns = match spec_get(doc, "nameservers"@) {
        Some(Json::Arr(nss)) => fold_ns(nss@),
        _ => Seq::empty(),
    };
    let cts = match spec_get(doc, "entities"@) {
        Some(Json::Arr(es)) => fold_entities(es@),
        _ => empty_contacts(),
    };
    DomainInfoV {
        domain: domain,
        registrar: cts.registrar,
        creation_date: dates.creation,
        expiration_date: dates.expiration,
        updated_date: dates.updated,
        status: status,
        name_servers: ns,
        registrant: cts.registrant,
        admin_contact: cts.admin,
        tech_contact: cts.tech,
        raw_data: Some(raw),
        source: "rdap"@,
    }
}

fn parse_events(evs: &Vec<Json>) -> (r: (Option<i64>, Option<i64>, Option<i64>))
    ensures
        (DatesV { creation: r.0, expiration: r.1, updated: r.2 }) == fold_events(evs@),
{
    let mut cd: Option<i64> = None;
    let mut ed: Option<i64> = None;
    let mut ud: Option<i64> = None;
    for i in 0..evs.len()
        invariant
            (DatesV { creation: cd, expiration: ed, updated: ud }) == fold_events(
                evs@.take(i as int),
            ),
    {
        proof {
            assert(evs@.take(i + 1).drop_last() =~= evs@.take(i as int));
            assert(evs@.take(i + 1).last() == evs@[i as int]);
        }
        let ev = &evs[i];
        match get_field(ev, "eventAction") {
            Some(a_json) => match a_json {
                Json::Str(action) => match get_field(ev, "eventDate") {
                    Some(d_json) => match d_json {
                        Json::Str(ds) => match parse_rfc3339_secs(ds.as_str()) {
                            Some(t) => {
                                let la = lower_str(action.as_str());
                                if str_eq(la.as_str(), "registration") {
                                    cd = Some(t);
                                } else if str_eq(la.as_str(), "expiration") {
                                    ed = Some(t);
                                } else if str_eq(la.as_str(), "last changed") || str_eq(
                                    la.as_str(),
                                    "last update",
                                ) {
                                    ud = Some(t);
                                }
                            },
                            None => {},
                        },
                        _ => {},
                    },
                    None => {},
                },
                _ => {},
            },
            None => {},
        }
        assert(DatesV { creation: cd, expiration: ed, updated: ud } == fold_events(
            evs@.take(i + 1),
        ));
    }
    assert(evs@.take(evs@.len() as int) =~= evs@);
    (cd, ed, ud)
}

fn parse_status(sts: &Vec<Json>) -> (r: Vec<String>)
    ensures
        str_views(r@) == fold_status(sts@),
{
    let mut out: Vec<String> = Vec::new();
    proof {
        assert(str_views(out@) =~= fold_status(sts@.take(0)));
    }
    for i in 0..sts.len()
        invariant
            str_views(out@) == fold_status(sts@.take(i as int)),
    {
        proof {
            assert(sts@.take(i + 1).drop_last() =~= sts@.take(i as int));
            assert(sts@.take(i + 1).last() == sts@[i as int]);
        }
        let st = &sts[i];
        match st {
            Json::Str(s) => {
                out.push(s.clone());
                assert(str_views(out@) =~= fold_status(sts@.take(i + 1)));
            },
            Json::Obj(_) => {
                match get_field(st, "description") {
                    Some(d_json) => match d_json {
                        Json::Str(d) => {
                            out.push(d.clone());
                            assert(str_views(out@) =~= fold_status(sts@.take(i + 1)));
                        },
                        _ => {},
                    },
                    None => {},
                }
            },
            _ => {},
        }
        assert(str_views(out@) == fold_status(sts@.take(i + 1)));
    }
    assert(sts@.take(sts@.len() as int) =~= sts@);
    out
}

fn parse_nameservers(nss: &Vec<Json>) -> (r: Vec<String>)
    ensures
        str_views(r@) == fold_ns(nss@),
{
    let mut out: Vec<String> = Vec::new();
    proof {
        assert(str_views(out@) =~= fold_ns(nss@.take(0)));
    }
    for i in 0..nss.len()
        invariant
            str_views(out@) == fold_ns(nss@.take(i as int)),
    {
        proof {
            assert(nss@.take(i + 1).drop_last() =~= nss@.take(i as int));
            assert(nss@.take(i + 1).last() == nss@[i as int]);
        }
        let ns = &nss[i];
        match get_field(ns, "ldhName") {
            Some(n_json) => match n_json {
                Json::Str(n) => {
                    out.push(lower_str(n.as_str()));
                    assert(str_views(out@) =~= fold_ns(nss@.take(i + 1)));
                },
                _ => {},
            },
            None => {},
        }
        assert(str_views(out@) == fold_ns(nss@.take(i + 1)));
    }
    assert(nss@.take(nss@.len() as int) =~= nss@);
    out
}

spec fn mk_contact_v(
    name: Option<String>,
    organization: Option<String>,
    email: Option<String>,
    phone: Option<String>,
    address: Option<String>,
) -> ContactV {
    ContactV {
        name: opt_str_view(name),
        organization: opt_str_view(organization),
        email: opt_str_view(email),
        phone: opt_str_view(phone),
        address: opt_str_view(address),
    }
}

spec fn mk_contacts_v(
    registrar: Option<String>,
    registrant: Option<Contact>,
    admin: Option<Contact>,
    tech: Option<Contact>,
) -> ContactsV {
    ContactsV {
        registrar: opt_str_view(registrar),
        registrant: opt_contact_view(registrant),
        admin: opt_contact_view(admin),
        tech: opt_contact_view(tech),
    }
}

impl RdapClient {
    /// The contact parsed from an entity's vCard, as `spec_vcard` describes;
    /// absent when no recognized field is present.
    pub fn parse_vcard(&self, entity: &Json) -> (r: Option<Contact>)
        ensures
            opt_contact_view(r) == spec_vcard(*entity),
    {
        let props: &Vec<Json> = match get_field(entity, "vcardArray") {
            Some(v_json) => match v_json {
                Json::Arr(items) => {
                    if items.len() >= 3 {
                        match &items[2] {
                            Json::Arr(props) => props,
                            _ => {
                                return None;
                            },
                        }
                    } else {
                        return None;
                    }
                },
                _ => {
                    return None;
                },
            },
            None => {
                return None;
            },
        };
        assert(vcard_props(*entity) == Some(props@));
        let mut name: Option<String> = None;
        let mut organization: Option<String> = None;
        let mut email: Option<String> = None;
        let mut phone: Option<String> = None;
        let mut address: Option<String> = None;
        for i in 0..props.len()
            invariant
                mk_contact_v(name, organization, email, phone, address) == fold_props(
                    props@.take(i as int),
                ),
        {
            proof {
                assert(props@.take(i + 1).drop_last() =~= props@.take(i as int));
                assert(props@.take(i + 1).last() == props@[i as int]);
            }
            let p = &props[i];
            match p {
                Json::Arr(elems) => {
                    if elems.len() >= 4 {
                        match (&elems[0], &elems[3]) {
                            (Json::Str(n), Json::Str(v)) => {
                                if str_eq(n.as_str(), "fn") {
                                    name = Some(v.clone());
                                } else if str_eq(n.as_str(), "org") {
                                    organization = Some(v.clone());
                                } else if str_eq(n.as_str(), "email") {
                                    email = Some(v.clone());
                                } else if str_eq(n.as_str(), "tel") {
                                    phone = Some(v.clone());
                                } else if str_eq(n.as_str(), "adr") {
                                    address = Some(v.clone());
                                }
                            },
                            _ => {},
                        }
                    }
                },
                _ => {},
            }
            assert(mk_contact_v(name, organization, email, phone, address) == fold_props(
                props@.take(i + 1),
            ));
        }
        assert(props@.take(props@.len() as int) =~= props@);
        if name.is_none() && organization.is_none() && email.is_none() && phone.is_none()
            && address.is_none() {
            None
        } else {
            Some(Contact { name, organization, email, phone, address })
        }
    }

    /// The display name of an entity: its `name` member when that is a
    /// string, otherwise the first `fn` property of its vCard.
    pub fn extract_name_from_vcard(&self, entity: &Json) -> (r: Option<String>)
        ensures
            opt_str_view(r) == spec_extract_name(*entity),
    {
        match get_field(entity, "name") {
            Some(n_json) => match n_json {
                Json::Str(n) => {
                    return Some(n.clone());
                },
                _ => {},
            },
            None => {},
        }
        let props: &Vec<Json> = match get_field(entity, "vcardArray") {
            Some(v_json) => match v_json {
                Json::Arr(items) => {
                    if items.len() >= 3 {
                        match &items[2] {
                            Json::Arr(props) => props,
                            _ => {
                                return None;
                            },
                        }
                    } else {
                        return None;
                    }
                },
                _ => {
                    return None;
                },
            },
            None => {
                return None;
            },
        };
        assert(vcard_props(*entity) == Some(props@));
        let n = props.len();
        proof {
            assert(props@.skip(0) =~= props@);
        }
        for i in 0..n
            invariant
                n == props@.len(),
                spec_extract_name(*entity) == first_fn_value(props@.skip(i as int)),
        {
            proof {
                assert(props@.skip(i as int)[0] == props@[i as int]);
                assert(props@.skip(i as int).drop_first() =~= props@.skip(i + 1));
            }
            let p = &props[i];
            match p {
                Json::Arr(elems) => {
                    if elems.len() >= 4 {
                        match (&elems[0], &elems[3]) {
                            (Json::Str(nm), Json::Str(v)) => {
                                if str_eq(nm.as_str(), "fn") {
                                    return Some(v.clone());
                                }
                            },
                            _ => {},
                        }
                    }
                },
                _ => {},
            }
        }
        proof {
            assert(props@.skip(n as int) =~= Seq::<Json>::empty());
        }
        None
    }

    fn parse_entities(&self, ents: &Vec<Json>) -> (r: (
        Option<String>,
        Option<Contact>,
        Option<Contact>,
        Option<Contact>,
    ))
        ensures
            mk_contacts_v(r.0, r.1, r.2, r.3) == fold_entities(ents@),
    {
        let mut registrar: Option<String> = None;
        let mut registrant: Option<Contact> = None;
        let mut admin: Option<Contact> = None;
        let mut tech: Option<Contact> = None;
        for i in 0..ents.len()
            invariant
                mk_contacts_v(registrar, registrant, admin, tech) == fold_entities(
                    ents@.take(i as int),
                ),
        {
            proof {
                assert(ents@.take(i + 1).drop_last() =~= ents@.take(i as int));
                assert(ents@.take(i + 1).last() == ents@[i as int]);
            }
            let ghost acc0 = mk_contacts_v(registrar, registrant, admin, tech);
            let ent = &ents[i];
            match get_field(ent, "roles") {
                Some(r_json) => match r_json {
                    Json::Arr(roles) => {
                        proof {
                            assert(apply_entity(acc0, ents@[i as int]) == apply_roles(
                                acc0,
                                ents@[i as int],
                                roles@,
                            ));
                        }
                        for j in 0..roles.len()
                            invariant
                                mk_contacts_v(registrar, registrant, admin, tech) == apply_roles(
                                    acc0,
                                    ents@[i as int],
                                    roles@.take(j as int),
                                ),
                                ent == &ents@[i as int],
                                i < ents@.len(),
                        {
                            proof {
                                assert(roles@.take(j + 1).drop_last() =~= roles@.take(j as int));
                                assert(roles@.take(j + 1).last() == roles@[j as int]);
                            }
                            let role = &roles[j];
                            match role {
                                Json::Str(rs) => {
                                    if str_eq(rs.as_str(), "registrant") {
                                        registrant = self.parse_vcard(ent);
                                    } else if str_eq(rs.as_str(), "administrative") {
                                        admin = self.parse_vcard(ent);
                                    } else if str_eq(rs.as_str(), "technical") {
                                        tech = self.parse_vcard(ent);
                                    } else if str_eq(rs.as_str(), "registrar") {
                                        if registrar.is_none() {
                                            registrar = self.extract_name_from_vcard(ent);
                                        }
                                    }
                                },
                                _ => {},
                            }
                            assert(mk_contacts_v(registrar, registrant, admin, tech)
                                == apply_roles(acc0, ents@[i as int], roles@.take(j + 1)));
                        }
                        proof {
                            assert(roles@.take(roles@.len() as int) =~= roles@);
                        }
                    },
                    _ => {},
                },
                None => {},
            }
            assert(mk_contacts_v(registrar, registrant, admin, tech) == fold_entities(
                ents@.take(i + 1),
            ));
        }
        assert(ents@.take(ents@.len() as int) =~= ents@);
        (registrar, registrant, admin, tech)
    }

    /// Builds the normalized record from an RDAP document. Never fails:
    /// absent or malformed pieces are skipped. `raw` is the document's
    /// source text, kept verbatim for audit.
    pub fn parse_rdap_data(&self, domain: &str, data: &Json, raw: &str) -> (r: DomainInfo)
        ensures
            r@ == spec_parse_rdap(domain@, *data, raw@),
    {
        let (cd, ed, ud) = match get_field(data, "events") {
            Some(e_json) => match e_json {
                Json::Arr(evs) => parse_events(evs),
                _ => (None, None, None),
            },
            None => (None, None, None),
        };
        let status = match get_field(data, "status") {
            Some(s_json) => match s_json {
                Json::Arr(sts) => parse_status(sts),
                _ => Vec::new(),
            },
            None => Vec::new(),
        };
        let name_servers = match get_field(data, "nameservers") {
            Some(n_json) => match n_json {
                Json::Arr(nss) => parse_nameservers(nss),
                _ => Vec::new(),
            },
            None => Vec::new(),
        };
        let (registrar, registrant, admin_contact, tech_contact) = match get_field(
            data,
            "entities",
        ) {
            Some(e_json) => match e_json {
                Json::Arr(es) => self.parse_entities(es),
                _ => (None, None, None, None),
            },
            None => (None, None, None, None),
        };
        let r = DomainInfo {
            domain: String::from_str(domain),
            registrar,
            creation_date: cd,
            expiration_date: ed,
            updated_date: ud,
            status,
            name_servers,
            registrant,
            admin_contact,
            tech_contact,
            raw_data: Some(String::from_str(raw)),
            source: String::from_str("rdap"),
        };
        proof {
            assert(str_views(Seq::<String>::empty()) =~= Seq::<Seq<char>>::empty());
        }
        r
    }
}

/// The role list carries the given role string.
pub open spec fn has_role(roles: Seq<Json>, name: Seq<char>) -> bool {
    exists|k: int|
        0 <= k < roles.len() && ((#[trigger] roles[k]) matches Json::Str(r) && r@ == name)
}

/// The entity's `roles` array carries the given role string.
pub open spec fn entity_has_role(ent: Json, name: Seq<char>) -> bool {
    spec_get(ent, "roles"@) matches Some(j) && j matches Json::Arr(rv) && has_role(rv@, name)
}

proof fn lemma_roles_admin(acc: ContactsV, ent: Json, roles: Seq<Json>)
    ensures
        has_role(roles, "administrative"@) ==> apply_roles(acc, ent, roles).admin == spec_vcard(
            ent,
        ),
        !has_role(roles, "administrative"@) ==> apply_roles(acc, ent, roles).admin == acc.admin,
    decreases roles.len(),
{
    reveal_strlit("registrant");
    reveal_strlit("administrative");
    reveal_strlit("technical");
    reveal_strlit("registrar");
    assert("registrant"@.len() == 10);
    assert("administrative"@.len() == 14);
    assert("technical"@.len() == 9);
    assert("registrar"@.len() == 9);
    assert("technical"@[0] == 't');
    assert("registrar"@[0] == 'r');
    if roles.len() == 0 {
    } else {
        lemma_roles_admin(acc, ent, roles.drop_last());
        let prev = apply_roles(acc, ent, roles.drop_last());
        let last = roles.last();
        assert(apply_roles(acc, ent, roles) == apply_role(prev, ent, last));
        let last_is_admin = last matches Json::Str(r) && r@ == "administrative"@;
        if last_is_admin {
            match last {
                Json::Str(r) => {
                    assert(r@ != "registrant"@);
                    assert(apply_role(prev, ent, last).admin == spec_vcard(ent));
                },
                _ => {
                    assert(false);
                },
            }
            assert(has_role(roles, "administrative"@)) by {
                assert(roles[roles.len() - 1] matches Json::Str(rr) && rr@ == "administrative"@);
            }
        } else {
            assert(apply_role(prev, ent, last).admin == prev.admin);
            if has_role(roles, "administrative"@) {
                let k = choose|k: int|
                    0 <= k < roles.len() && ((#[trigger] roles[k]) matches Json::Str(r) && r@
                        == "administrative"@);
                assert(k < roles.len() - 1);
                assert(roles.drop_last()[k] == roles[k]);
                assert(has_role(roles.drop_last(), "administrative"@));
            } else {
                if has_role(roles.drop_last(), "administrative"@) {
                    let k = choose|k: int|
                        0 <= k < roles.drop_last().len() && ((#[trigger] roles.drop_last()[k])
                            matches Json::Str(r) && r@ == "administrative"@);
                    assert(roles[k] == roles.drop_last()[k]);
                    assert(false);
                }
            }
        }
    }
}

proof fn lemma_roles_registrar(acc: ContactsV, ent: Json, roles: Seq<Json>)
    ensures
        acc.registrar is Some ==> apply_roles(acc, ent, roles).registrar == acc.registrar,
        acc.registrar is None && has_role(roles, "registrar"@) ==> apply_roles(
            acc,
            ent,
            roles,
        ).registrar == spec_extract_name(ent),
        acc.registrar is None && !has_role(roles, "registrar"@) ==> apply_roles(
            acc,
            ent,
            roles,
        ).registrar is None,
    decreases roles.len(),
{
    reveal_strlit("registrant");
    reveal_strlit("administrative");
    reveal_strlit("technical");
    reveal_strlit("registrar");
    assert("registrant"@.len() == 10);
    assert("administrative"@.len() == 14);
    assert("technical"@.len() == 9);
    assert("registrar"@.len() == 9);
    assert("technical"@[0] == 't');
    assert("registrar"@[0] == 'r');
    if roles.len() == 0 {
    } else {
        lemma_roles_registrar(acc, ent, roles.drop_last());
        let prev = apply_roles(acc, ent, roles.drop_last());
        let last = roles.last();
        assert(apply_roles(acc, ent, roles) == apply_role(prev, ent, last));
        let last_is_reg = last matches Json::Str(r) && r@ == "registrar"@;
        if last_is_reg {
            match last {
                Json::Str(r) => {
                    assert(r@ != "registrant"@ && r@ != "administrative"@ && r@ != "technical"@);
                    if prev.registrar is None {
                        assert(apply_role(prev, ent, last).registrar == spec_extract_name(ent));
                    } else {
                        assert(apply_role(prev, ent, last).registrar == prev.registrar);
                    }
                },
                _ => {
                    assert(false);
                },
            }
            assert(has_role(roles, "registrar"@)) by {
                assert(roles[roles.len() - 1] matches Json::Str(rr) && rr@ == "registrar"@);
            }
            if acc.registrar is None && !has_role(roles.drop_last(), "registrar"@) {
                assert(prev.registrar is None);
            }
        } else {
            assert(apply_role(prev, ent, last).registrar == prev.registrar);
            if has_role(roles, "registrar"@) {
                let k = choose|k: int|
                    0 <= k < roles.len() && ((#[trigger] roles[k]) matches Json::Str(r) && r@
                        == "registrar"@);
                assert(k < roles.len() - 1);
                assert(roles.drop_last()[k] == roles[k]);
                assert(has_role(roles.drop_last(), "registrar"@));
            } else {
                if has_role(roles.drop_last(), "registrar"@) {
                    let k = choose|k: int|
                        0 <= k < roles.drop_last().len() && ((#[trigger] roles.drop_last()[k])
                            matches Json::Str(r) && r@ == "registrar"@);
                    assert(roles[k] == roles.drop_last()[k]);
                    assert(false);
                }
            }
        }
    }
}

/// Law: contact roles are last-wins. When the last entity of the list
/// carries the role `administrative`, the administrative contact of the
/// folded result is that entity's vCard contact, whatever earlier entities
/// assigned.
pub proof fn lemma_admin_last_wins(ents: Seq<Json>)
    requires
        ents.len() > 0,
        entity_has_role(ents.last(), "administrative"@),
    ensures
        fold_entities(ents).admin == spec_vcard(ents.last()),
{
    let acc = fold_entities(ents.drop_last());
    let ent = ents.last();
    let rv = spec_get(ent, "roles"@)->0->Arr_0;
    lemma_roles_admin(acc, ent, rv@);
}

/// Law: contact roles are last-wins, seen at the parser's contract. In a
/// document whose `entities` array ends with an entity carrying the role
/// `administrative`, the parsed record's administrative contact is that
/// entity's vCard contact.
pub proof fn lemma_parse_admin_last_wins(domain: Seq<char>, doc: Json, raw: Seq<char>, ents: Vec<Json>)
    requires
        spec_get(doc, "entities"@) == Some(Json::Arr(ents)),
        ents@.len() > 0,
        entity_has_role(ents@.last(), "administrative"@),
    ensures
        spec_parse_rdap(domain, doc, raw).admin_contact == spec_vcard(ents@.last()),
{
    lemma_admin_last_wins(ents@);
}

/// Law: the registrar name is first-wins. With exactly two entities that
/// both carry the role `registrar`, the folded registrar name is the one
/// extracted from the first entity, whenever that entity yields a name.
pub proof fn lemma_registrar_first_wins(e1: Json, e2: Json)
    requires
        entity_has_role(e1, "registrar"@),
        entity_has_role(e2, "registrar"@),
        spec_extract_name(e1) is Some,
    ensures
        fold_entities(seq![e1, e2]).registrar == spec_extract_name(e1),
{
    let s = seq![e1, e2];
    assert(s.drop_last() =~= seq![e1]);
    assert(s.last() == e2);
    assert(seq![e1].drop_last() =~= Seq::<Json>::empty());
    assert(seq![e1].last() == e1);
    assert(fold_entities(Seq::<Json>::empty()) == empty_contacts());
    let rv1 = spec_get(e1, "roles"@)->0->Arr_0;
    lemma_roles_registrar(empty_contacts(), e1, rv1@);
    let acc1 = fold_entities(seq![e1]);
    assert(acc1.registrar == spec_extract_name(e1));
    let rv2 = spec_get(e2, "roles"@)->0->Arr_0;
    lemma_roles_registrar(acc1, e2, rv2@);
}

/// Law: the registrar name is first-wins, seen at the parser's contract. In
/// a document whose `entities` array is exactly two entities that both carry
/// the role `registrar`, the parsed record's registrar is the name extracted
/// from the first, whenever that entity yields a name.
pub proof fn lemma_parse_registrar_first_wins(domain: Seq<char>, doc: Json, raw: Seq<char>, ents: Vec<Json>, e1: Json, e2: Json)
    requires
        spec_get(doc, "entities"@) == Some(Json::Arr(ents)),
        ents@ == seq![e1, e2],
        entity_has_role(e1, "registrar"@),
        entity_has_role(e2, "registrar"@),
        spec_extract_name(e1) is Some,
    ensures
        spec_parse_rdap(domain, doc, raw).registrar == spec_extract_name(e1),
{
    lemma_registrar_first_wins(e1, e2);
}

} // verus!
