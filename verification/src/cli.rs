//! Operator-command helpers: resolving which configuration file a
//! test run examines, and the shortened credential shown in a
//! configuration summary. Printing the summary and reading the file
//! happen outside the library.

use vstd::prelude::*;

verus! {

/// The configuration file a test run examines: the given path, or
/// the well-known default when none was given.
pub fn handle_test_command(test_config_path: Option<String>) -> (r: String)
    ensures
        test_config_path matches Some(p) ==> r == p,
        test_config_path is None ==> r@ == "/etc/myddns/config.toml"@,
{
    match test_config_path {
        Some(p) => p,
        None => String::from_str("/etc/myddns/config.toml"),
    }
}

/// The opening of the API credential that a configuration summary may
/// show: the first 20 characters, or all of a shorter credential.
pub fn token_preview(token: &str) -> (r: String)
    ensures
        token@.len() <= 20 ==> r@ == token@,
        token@.len() > 20 ==> r@ == token@.take(20),
{
    let n = token.unicode_len();
    if n <= 20 {
        proof {
            assert(token@.subrange(0int, n as int) =~= token@);
        }
        let s = token.substring_char(0, n);
        s.to_owned()
    } else {
        let s = token.substring_char(0, 20);
        s.to_owned()
    }
}

} // verus!
