//! The read-only configuration: enumeration value lists, user variables and
//! the partner-file map.  The maps are association lists looked up by first
//! match; loading and saving the configuration file is the surrounding
//! program's concern.

use vstd::prelude::*;

verus! {

broadcast use vstd::string::group_string_axioms;

/// The mathematical shape of the configuration.
pub ghost struct ConfigView {
    pub enumeration_list: Seq<Seq<char>>,
    pub language_list: Seq<Seq<char>>,
    pub platform_list: Seq<Seq<char>>,
    pub user_variables: Seq<(Seq<char>, Seq<char>)>,
    pub partner_file_map: Seq<(Seq<char>, Seq<char>)>,
}

/// The tool's configuration.
#[derive(Clone, Debug)]
pub struct Config {
    pub enumeration_list: Vec<String>,
    pub language_list: Vec<String>,
    pub platform_list: Vec<String>,
    pub user_variables: Vec<(String, String)>,
    pub partner_file_map: Vec<(String, String)>,
}

impl View for Config {
    type V = ConfigView;

    open spec fn view(&self) -> ConfigView {
        ConfigView {
            enumeration_list: self.enumeration_list.deep_view(),
            language_list: self.language_list.deep_view(),
            platform_list: self.platform_list.deep_view(),
            user_variables: self.user_variables.deep_view(),
            partner_file_map: self.partner_file_map.deep_view(),
        }
    }
}

/// The value the first pair with key `k` carries, when one exists.
pub open spec fn assoc_lookup(m: Seq<(Seq<char>, Seq<char>)>, k: Seq<char>) -> Option<Seq<char>>
    decreases m.len(),
{
    if m.len() == 0 {
        None
    } else if m[0].0 == k {
        Some(m[0].1)
    } else {
        assoc_lookup(m.drop_first(), k)
    }
}

/// Looks a key up in an association list, first match wins.
pub fn lookup_value(map: &Vec<(String, String)>, key: &str) -> (r: Option<String>)
    ensures
        r.deep_view() == assoc_lookup(map.deep_view(), key@),
{
    let ghost mv = map.deep_view();
    let key_string = String::from_str(key);
    let mut i: usize = 0;
    proof {
        assert(mv.skip(0) =~= mv);
    }
    while i < map.len()
        invariant
            i <= map.len(),
            mv == map.deep_view(),
            key_string@ == key@,
            assoc_lookup(mv, key@) == assoc_lookup(mv.skip(i as int), key@),
        decreases map.len() - i,
    {
        proof {
            assert(mv.skip(i as int).drop_first() =~= mv.skip(i as int + 1));
            assert(mv.skip(i as int)[0] == mv[i as int]);
        }
        if map[i].0 == key_string {
            return Some(map[i].1.clone());
        }
        i += 1;
    }
    proof {
        assert(mv.skip(map.len() as int) =~= Seq::<(Seq<char>, Seq<char>)>::empty());
    }
    None
}

/// The configuration the tool starts from when none is on disk.
pub open spec fn default_config_spec() -> ConfigView {
    ConfigView {
        enumeration_list: seq!["a"@, "b"@],
        language_list: seq!["en"@, "fr"@],
        platform_list: seq!["windows"@, "linux"@, "mac_os"@],
        user_variables: seq![("LOOPBACK_ADDR"@, "127.0.0.1"@), ("VERSION_MANAGEMENT"@, "git"@)],
        partner_file_map: seq![("h"@, "cpp"@), ("c"@, "h"@), ("cpp"@, "h"@)],
    }
}

impl Config {
    /// Builds the default configuration.
    pub fn default() -> (r: Self)
        ensures
            r@ == default_config_spec(),
    {
        let mut enumeration_list: Vec<String> = Vec::new();
        enumeration_list.push(String::from_str("a"));
        enumeration_list.push(String::from_str("b"));
        let mut language_list: Vec<String> = Vec::new();
        language_list.push(String::from_str("en"));
        language_list.push(String::from_str("fr"));
        let mut platform_list: Vec<String> = Vec::new();
        platform_list.push(String::from_str("windows"));
        platform_list.push(String::from_str("linux"));
        platform_list.push(String::from_str("mac_os"));
        let mut user_variables: Vec<(String, String)> = Vec::new();
        user_variables.push((String::from_str("LOOPBACK_ADDR"), String::from_str("127.0.0.1")));
        user_variables.push((String::from_str("VERSION_MANAGEMENT"), String::from_str("git")));
        let mut partner_file_map: Vec<(String, String)> = Vec::new();
        partner_file_map.push((String::from_str("h"), String::from_str("cpp")));
        partner_file_map.push((String::from_str("c"), String::from_str("h")));
        partner_file_map.push((String::from_str("cpp"), String::from_str("h")));
        let config = Config {
            enumeration_list,
            language_list,
            platform_list,
            user_variables,
            partner_file_map,
        };
        proof {
            assert(config@.enumeration_list =~= default_config_spec().enumeration_list);
            assert(config@.language_list =~= default_config_spec().language_list);
            assert(config@.platform_list =~= default_config_spec().platform_list);
            assert(config@.user_variables =~= default_config_spec().user_variables);
            assert(config@.partner_file_map =~= default_config_spec().partner_file_map);
        }
        config
    }
}

} // verus!
