//! The static routing table from a top-level domain to the base URL of its
//! authoritative RDAP service. Lookup is case-insensitive; unknown TLDs have
//! no entry.

use vstd::prelude::*;
use vstd::string::StringExecFns;
use crate::strutil::{lower_seq, lower_chars, chars_of, eq_lit, lemma_lower_seq_idempotent, opt_str_view};

verus! {

/// The endpoint registered for an already lower-cased TLD, if any.
pub open spec fn spec_endpoint(t: Seq<char>) -> Option<Seq<char>> {
    if t == "com"@ {
        Some("https://rdap.verisign.com/"@)
    } else if t == "net"@ {
        Some("https://rdap.verisign.com/"@)
    } else if t == "org"@ {
        Some("https://rdap.publicinterestregistry.net/"@)
    } else if t == "info"@ {
        Some("https://rdap.afilias.net/"@)
    } else if t == "biz"@ {
        Some("https://rdap.neustar.biz/"@)
    } else if t == "us"@ {
        Some("https://rdap.verisign.com/"@)
    } else if t == "uk"@ {
        Some("https://rdap.nominet.uk/"@)
    } else if t == "de"@ {
        Some("https://rdap.denic.de/"@)
    } else if t == "fr"@ {
        Some("https://rdap.afnic.fr/"@)
    } else if t == "it"@ {
        Some("https://rdap.nic.it/"@)
    } else if t == "es"@ {
        Some("https://rdap.nic.es/"@)
    } else if t == "nl"@ {
        Some("https://rdap.sidn.nl/"@)
    } else if t == "be"@ {
        Some("https://rdap.dns.be/"@)
    } else if t == "ch"@ {
        Some("https://rdap.nic.ch/"@)
    } else if t == "at"@ {
        Some("https://rdap.nic.at/"@)
    } else if t == "se"@ {
        Some("https://rdap.iis.se/"@)
    } else if t == "no"@ {
        Some("https://rdap.norid.no/"@)
    } else if t == "dk"@ {
        Some("https://rdap.dk-hostmaster.dk/"@)
    } else if t == "fi"@ {
        Some("https://rdap.traficom.fi/"@)
    } else if t == "pl"@ {
        Some("https://rdap.dns.pl/"@)
    } else if t == "cz"@ {
        Some("https://rdap.nic.cz/"@)
    } else if t == "sk"@ {
        Some("https://rdap.sk-nic.sk/"@)
    } else if t == "hu"@ {
        Some("https://rdap.nic.hu/"@)
    } else if t == "ro"@ {
        Some("https://rdap.rotld.ro/"@)
    } else if t == "bg"@ {
        Some("https://rdap.register.bg/"@)
    } else if t == "hr"@ {
        Some("https://rdap.dns.hr/"@)
    } else if t == "si"@ {
        Some("https://rdap.arnes.si/"@)
    } else if t == "ee"@ {
        Some("https://rdap.tld.ee/"@)
    } else if t == "lv"@ {
        Some("https://rdap.nic.lv/"@)
    } else if t == "lt"@ {
        Some("https://rdap.domreg.lt/"@)
    } else if t == "ie"@ {
        Some("https://rdap.weare.ie/"@)
    } else if t == "pt"@ {
        Some("https://rdap.dns.pt/"@)
    } else if t == "gr"@ {
        Some("https://rdap.forth.gr/"@)
    } else if t == "cy"@ {
        Some("https://rdap.nic.cy/"@)
    } else if t == "mt"@ {
        Some("https://rdap.nic.org.mt/"@)
    } else if t == "lu"@ {
        Some("https://rdap.dns.lu/"@)
    } else if t == "li"@ {
        Some("https://rdap.nic.li/"@)
    } else if t == "is"@ {
        Some("https://rdap.isnic.is/"@)
    } else if t == "fo"@ {
        Some("https://rdap.arnes.si/"@)
    } else if t == "gl"@ {
        Some("https://rdap.arnes.si/"@)
    } else if t == "ax"@ {
        Some("https://rdap.aland.fi/"@)
    } else if t == "ad"@ {
        Some("https://rdap.nic.ad/"@)
    } else if t == "mc"@ {
        Some("https://rdap.nic.mc/"@)
    } else if t == "sm"@ {
        Some("https://rdap.nic.sm/"@)
    } else if t == "va"@ {
        Some("https://rdap.nic.va/"@)
    } else if t == "gi"@ {
        Some("https://rdap.nic.gi/"@)
    } else if t == "gg"@ {
        Some("https://rdap.channelisles.net/"@)
    } else if t == "je"@ {
        Some("https://rdap.channelisles.net/"@)
    } else if t == "im"@ {
        Some("https://rdap.nic.im/"@)
    } else if t == "co"@ {
        Some("https://rdap.co/"@)
    } else if t == "ac"@ {
        Some("https://rdap.nic.ac/"@)
    } else if t == "me"@ {
        Some("https://rdap.nic.me/"@)
    } else if t == "tv"@ {
        Some("https://rdap.tv/"@)
    } else if t == "cc"@ {
        Some("https://rdap.verisign.com/"@)
    } else if t == "mobi"@ {
        Some("https://rdap.afilias.net/"@)
    } else if t == "name"@ {
        Some("https://rdap.verisign.com/"@)
    } else if t == "pro"@ {
        Some("https://rdap.afilias.net/"@)
    } else if t == "aero"@ {
        Some("https://rdap.information.aero/"@)
    } else if t == "coop"@ {
        Some("https://rdap.nic.coop/"@)
    } else if t == "museum"@ {
        Some("https://rdap.museum/"@)
    } else if t == "travel"@ {
        Some("https://rdap.travel/"@)
    } else if t == "jobs"@ {
        Some("https://rdap.employmedia.com/"@)
    } else if t == "cat"@ {
        Some("https://rdap.cat/"@)
    } else if t == "tel"@ {
        Some("https://rdap.tel/"@)
    } else if t == "asia"@ {
        Some("https://rdap.asia/"@)
    } else if t == "post"@ {
        Some("https://rdap.post/"@)
    } else if t == "xxx"@ {
        Some("https://rdap.icmregistry.com/"@)
    } else if t == "arpa"@ {
        Some("https://rdap.iana.org/"@)
    } else {
        None
    }
}

/// The endpoint for a TLD in any letter case.
pub open spec fn spec_resolve(t: Seq<char>) -> Option<Seq<char>> {
    spec_endpoint(lower_seq(t))
}

fn endpoint_for(t: &Vec<char>) -> (r: Option<String>)
    ensures
        opt_str_view(r) == spec_endpoint(t@),
{
    if eq_lit(t, "com") {
        return Some(String::from_str("https://rdap.verisign.com/"));
    }
    if eq_lit(t, "net") {
        return Some(String::from_str("https://rdap.verisign.com/"));
    }
    if eq_lit(t, "org") {
        return Some(String::from_str("https://rdap.publicinterestregistry.net/"));
    }
    if eq_lit(t, "info") {
        return Some(String::from_str("https://rdap.afilias.net/"));
    }
    if eq_lit(t, "biz") {
        return Some(String::from_str("https://rdap.neustar.biz/"));
    }
    if eq_lit(t, "us") {
        return Some(String::from_str("https://rdap.verisign.com/"));
    }
    if eq_lit(t, "uk") {
        return Some(String::from_str("https://rdap.nominet.uk/"));
    }
    if eq_lit(t, "de") {
        return Some(String::from_str("https://rdap.denic.de/"));
    }
    if eq_lit(t, "fr") {
        return Some(String::from_str("https://rdap.afnic.fr/"));
    }
    if eq_lit(t, "it") {
        return Some(String::from_str("https://rdap.nic.it/"));
    }
    if eq_lit(t, "es") {
        return Some(String::from_str("https://rdap.nic.es/"));
    }
    if eq_lit(t, "nl") {
        return Some(String::from_str("https://rdap.sidn.nl/"));
    }
    if eq_lit(t, "be") {
        return Some(String::from_str("https://rdap.dns.be/"));
    }
    if eq_lit(t, "ch") {
        return Some(String::from_str("https://rdap.nic.ch/"));
    }
    if eq_lit(t, "at") {
        return Some(String::from_str("https://rdap.nic.at/"));
    }
    if eq_lit(t, "se") {
        return Some(String::from_str("https://rdap.iis.se/"));
    }
    if eq_lit(t, "no") {
        return Some(String::from_str("https://rdap.norid.no/"));
    }
    if eq_lit(t, "dk") {
        return Some(String::from_str("https://rdap.dk-hostmaster.dk/"));
    }
    if eq_lit(t, "fi") {
        return Some(String::from_str("https://rdap.traficom.fi/"));
    }
    if eq_lit(t, "pl") {
        return Some(String::from_str("https://rdap.dns.pl/"));
    }
    if eq_lit(t, "cz") {
        return Some(String::from_str("https://rdap.nic.cz/"));
    }
    if eq_lit(t, "sk") {
        return Some(String::from_str("https://rdap.sk-nic.sk/"));
    }
    if eq_lit(t, "hu") {
        return Some(String::from_str("https://rdap.nic.hu/"));
    }
    if eq_lit(t, "ro") {
        return Some(String::from_str("https://rdap.rotld.ro/"));
    }
    if eq_lit(t, "bg") {
        return Some(String::from_str("https://rdap.register.bg/"));
    }
    if eq_lit(t, "hr") {
        return Some(String::from_str("https://rdap.dns.hr/"));
    }
    if eq_lit(t, "si") {
        return Some(String::from_str("https://rdap.arnes.si/"));
    }
    if eq_lit(t, "ee") {
        return Some(String::from_str("https://rdap.tld.ee/"));
    }
    if eq_lit(t, "lv") {
        return Some(String::from_str("https://rdap.nic.lv/"));
    }
    if eq_lit(t, "lt") {
        return Some(String::from_str("https://rdap.domreg.lt/"));
    }
    if eq_lit(t, "ie") {
        return Some(String::from_str("https://rdap.weare.ie/"));
    }
    if eq_lit(t, "pt") {
        return Some(String::from_str("https://rdap.dns.pt/"));
    }
    if eq_lit(t, "gr") {
        return Some(String::from_str("https://rdap.forth.gr/"));
    }
    if eq_lit(t, "cy") {
        return Some(String::from_str("https://rdap.nic.cy/"));
    }
    if eq_lit(t, "mt") {
        return Some(String::from_str("https://rdap.nic.org.mt/"));
    }
    if eq_lit(t, "lu") {
        return Some(String::from_str("https://rdap.dns.lu/"));
    }
    if eq_lit(t, "li") {
        return Some(String::from_str("https://rdap.nic.li/"));
    }
    if eq_lit(t, "is") {
        return Some(String::from_str("https://rdap.isnic.is/"));
    }
    if eq_lit(t, "fo") {
        return Some(String::from_str("https://rdap.arnes.si/"));
    }
    if eq_lit(t, "gl") {
        return Some(String::from_str("https://rdap.arnes.si/"));
    }
    if eq_lit(t, "ax") {
        return Some(String::from_str("https://rdap.aland.fi/"));
    }
    if eq_lit(t, "ad") {
        return Some(String::from_str("https://rdap.nic.ad/"));
    }
    if eq_lit(t, "mc") {
        return Some(String::from_str("https://rdap.nic.mc/"));
    }
    if eq_lit(t, "sm") {
        return Some(String::from_str("https://rdap.nic.sm/"));
    }
    if eq_lit(t, "va") {
        return Some(String::from_str("https://rdap.nic.va/"));
    }
    if eq_lit(t, "gi") {
        return Some(String::from_str("https://rdap.nic.gi/"));
    }
    if eq_lit(t, "gg") {
        return Some(String::from_str("https://rdap.channelisles.net/"));
    }
    if eq_lit(t, "je") {
        return Some(String::from_str("https://rdap.channelisles.net/"));
    }
    if eq_lit(t, "im") {
        return Some(String::from_str("https://rdap.nic.im/"));
    }
    if eq_lit(t, "co") {
        return Some(String::from_str("https://rdap.co/"));
    }
    if eq_lit(t, "ac") {
        return Some(String::from_str("https://rdap.nic.ac/"));
    }
    if eq_lit(t, "me") {
        return Some(String::from_str("https://rdap.nic.me/"));
    }
    if eq_lit(t, "tv") {
        return Some(String::from_str("https://rdap.tv/"));
    }
    if eq_lit(t, "cc") {
        return Some(String::from_str("https://rdap.verisign.com/"));
    }
    if eq_lit(t, "mobi") {
        return Some(String::from_str("https://rdap.afilias.net/"));
    }
    if eq_lit(t, "name") {
        return Some(String::from_str("https://rdap.verisign.com/"));
    }
    if eq_lit(t, "pro") {
        return Some(String::from_str("https://rdap.afilias.net/"));
    }
    if eq_lit(t, "aero") {
        return Some(String::from_str("https://rdap.information.aero/"));
    }
    if eq_lit(t, "coop") {
        return Some(String::from_str("https://rdap.nic.coop/"));
    }
    if eq_lit(t, "museum") {
        return Some(String::from_str("https://rdap.museum/"));
    }
    if eq_lit(t, "travel") {
        return Some(String::from_str("https://rdap.travel/"));
    }
    if eq_lit(t, "jobs") {
        return Some(String::from_str("https://rdap.employmedia.com/"));
    }
    if eq_lit(t, "cat") {
        return Some(String::from_str("https://rdap.cat/"));
    }
    if eq_lit(t, "tel") {
        return Some(String::from_str("https://rdap.tel/"));
    }
    if eq_lit(t, "asia") {
        return Some(String::from_str("https://rdap.asia/"));
    }
    if eq_lit(t, "post") {
        return Some(String::from_str("https://rdap.post/"));
    }
    if eq_lit(t, "xxx") {
        return Some(String::from_str("https://rdap.icmregistry.com/"));
    }
    if eq_lit(t, "arpa") {
        return Some(String::from_str("https://rdap.iana.org/"));
    }
    None
}

/// The RDAP base URL serving the given TLD, or `None` when no endpoint is
/// registered for it. The TLD may come in any letter case.
pub fn resolve(tld: &str) -> (r: Option<String>)
    ensures
        opt_str_view(r) == spec_resolve(tld@),
{
    let cs = chars_of(tld);
    let lo = lower_chars(&cs);
    endpoint_for(&lo)
}

/// Law: resolution is case-insensitive — a TLD and its lower-cased form
/// route to the same endpoint.
pub proof fn lemma_resolve_case_insensitive(t: Seq<char>)
    ensures
        spec_resolve(t) == spec_resolve(lower_seq(t)),
{
    lemma_lower_seq_idempotent(t);
}

} // verus!
