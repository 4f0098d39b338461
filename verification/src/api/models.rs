//! Records the station directory returns.

use vstd::prelude::*;
use crate::text::{comma_list, comma_list_of, text_list, push_decimal, decimal_string, string_append_str};

verus! {

/// A radio station as the directory describes it.
#[derive(Debug, Clone)]
pub struct Station {
    pub station_uuid: String,
    pub change_uuid: String,
    pub name: String,
    pub url: String,
    pub url_resolved: String,
    pub homepage: String,
    pub favicon: String,
    pub tags: String,
    pub country: String,
    pub country_code: String,
    pub state: String,
    pub language: String,
    pub language_codes: String,
    pub votes: i32,
    pub codec: String,
    pub bitrate: i32,
    pub hls: i32,
    pub last_check_ok: i32,
    pub last_check_time: String,
    pub last_check_ok_time: String,
    pub click_timestamp: String,
    pub click_count: i32,
    pub click_trend: i32,
}

/// The dash shown for a missing value.
pub open spec fn missing_mark() -> Seq<char> {
    seq!['\u{2014}']
}

impl Station {
    /// A copy of this station.
    pub fn duplicate(&self) -> (r: Station)
        ensures
            r == *self,
    {
        Station {
            station_uuid: self.station_uuid.clone(),
            change_uuid: self.change_uuid.clone(),
            name: self.name.clone(),
            url: self.url.clone(),
            url_resolved: self.url_resolved.clone(),
            homepage: self.homepage.clone(),
            favicon: self.favicon.clone(),
            tags: self.tags.clone(),
            country: self.country.clone(),
            country_code: self.country_code.clone(),
            state: self.state.clone(),
            language: self.language.clone(),
            language_codes: self.language_codes.clone(),
            votes: self.votes,
            codec: self.codec.clone(),
            bitrate: self.bitrate,
            hls: self.hls,
            last_check_ok: self.last_check_ok,
            last_check_time: self.last_check_time.clone(),
            last_check_ok_time: self.last_check_ok_time.clone(),
            click_timestamp: self.click_timestamp.clone(),
            click_count: self.click_count,
            click_trend: self.click_trend,
        }
    }

    /// Whether the directory's last check found the stream working.
    pub fn is_online(&self) -> (b: bool)
        ensures
            b == (self.last_check_ok == 1),
    {
        self.last_check_ok == 1
    }

    /// The station's tags: the comma-separated tag field, trimmed, empty ones dropped.
    pub fn get_tags(&self) -> (r: Vec<String>)
        ensures
            text_list(r@) == comma_list(self.tags@),
    {
        comma_list_of(self.tags.as_str())
    }

    /// The station's languages: the comma-separated language field, trimmed, empty ones dropped.
    pub fn get_languages(&self) -> (r: Vec<String>)
        ensures
            text_list(r@) == comma_list(self.language@),
    {
        comma_list_of(self.language.as_str())
    }

    /// The bitrate as `<n> kbps`, or a dash when it is unknown (not positive).
    pub fn format_bitrate(&self) -> (s: String)
        ensures
            s@ == (if self.bitrate > 0 {
                decimal_string(self.bitrate as nat) + " kbps"@
            } else {
                missing_mark()
            }),
    {
        if self.bitrate > 0 {
            let mut s = String::new();
            push_decimal(&mut s, self.bitrate as u64);
            string_append_str(&mut s, " kbps");
            proof {
                assert(s@ =~= decimal_string(self.bitrate as nat) + " kbps"@);
            }
            s
        } else {
            let mut s = String::new();
            crate::text::string_push(&mut s, '\u{2014}');
            proof {
                assert(s@ =~= missing_mark());
            }
            s
        }
    }

    /// The codec name, or a dash when it is empty.
    pub fn format_codec(&self) -> (s: String)
        ensures
            s@ == (if self.codec@.len() == 0 {
                missing_mark()
            } else {
                self.codec@
            }),
    {
        if self.codec.unicode_len() == 0 {
            let mut s = String::new();
            crate::text::string_push(&mut s, '\u{2014}');
            proof {
                assert(s@ =~= missing_mark());
            }
            s
        } else {
            self.codec.clone()
        }
    }
}

/// A copy of a list of stations.
pub fn copy_stations(v: &Vec<Station>) -> (r: Vec<Station>)
    ensures
        r@ == v@,
{
    let mut r: Vec<Station> = Vec::new();
    let mut i: usize = 0;
    while i < v.len()
        invariant
            i <= v.len(),
            r@ == v@.take(i as int),
        decreases v.len() - i,
    {
        r.push(v[i].duplicate());
        i = i + 1;
        proof {
            assert(r@ =~= v@.take(i as int));
        }
    }
    proof {
        assert(v@.take(i as int) =~= v@);
    }
    r
}

/// A country and how many stations it has.
#[derive(Debug, Clone)]
pub struct Country {
    pub name: String,
    pub iso_3166_1: String,
    pub station_count: i32,
}

/// A tag and how many stations carry it.
#[derive(Debug, Clone)]
pub struct Tag {
    pub name: String,
    pub station_count: i32,
}

/// A language and how many stations broadcast in it.
#[derive(Debug, Clone)]
pub struct Language {
    pub name: String,
    pub iso_639: Option<String>,
    pub station_count: i32,
}

/// The directory's answer to a recorded play.
#[derive(Debug)]
pub struct ClickResponse {
    pub ok: bool,
    pub message: String,
    pub station_uuid: String,
    pub name: String,
    pub url: String,
}

/// The directory's answer to a vote.
#[derive(Debug)]
pub struct VoteResponse {
    pub ok: bool,
    pub message: String,
}

} // verus!
