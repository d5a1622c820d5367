//! Where the window manager keeps its files. Paths are the bytes the system knows them by, which need
//! not be text.
use vstd::prelude::*;
use vstd::utf8::encode_utf8;

verus! {

/// `dirs::home_dir` answers from the environment, so nothing is promised of the path. Its bytes are
/// those of `OsString::into_encoded_bytes`.
#[verifier::external_body]
fn home_dir() -> (r: Option<Vec<u8>>) {
    Some(dirs::home_dir()?.into_os_string().into_encoded_bytes())
}

/// The call for the home directory may have given `home`. It answers from the environment, so it may
/// give another answer each time.
pub closed spec fn home_given(home: Option<Vec<u8>>) -> bool {
    call_ensures(home_dir, (), home)
}

/// The bytes of an optional path.
pub open spec fn maybe_path(path: Option<Vec<u8>>) -> Option<Seq<u8>> {
    match path {
        Some(bytes) => Some(bytes@),
        None => None,
    }
}

/// The byte between a directory and what is in it.
pub const SLASH: u8 = 47;

/// `name` inside the directory `base`: a slash between them, unless `base` ends with one or is empty.
pub open spec fn inside(base: Seq<u8>, name: Seq<char>) -> Seq<u8> {
    if base.len() == 0 || base.last() == SLASH {
        base + encode_utf8(name)
    } else {
        base.push(SLASH) + encode_utf8(name)
    }
}

/// `name`, which does not begin with a slash, inside the directory `base`.
pub fn join(base: &[u8], name: &str) -> (r: Vec<u8>)
    ensures
        r@ == inside(base@, name@),
{
    let mut out: Vec<u8> = Vec::new();
    push_bytes(&mut out, base);
    let n: usize = base.len();
    if n > 0 && base[n - 1] != SLASH {
        out.push(SLASH);
    }
    push_bytes(&mut out, name.as_bytes());
    assert(out@ =~= inside(base@, name@));
    out
}

fn push_bytes(out: &mut Vec<u8>, bytes: &[u8])
    ensures
        final(out)@ == old(out)@ + bytes@,
{
    let ghost before = out@;
    let mut i: usize = 0;
    while i < bytes.len()
        invariant
            i <= bytes@.len(),
            out@ == before + bytes@.take(i as int),
        decreases bytes@.len() - i,
    {
        out.push(bytes[i]);
        i += 1;
        assert(out@ =~= before + bytes@.take(i as int));
    }
    assert(bytes@.take(bytes@.len() as int) == bytes@);
}

/// The directory of saved layout state, below `home`.
pub open spec fn data_path(home: Seq<u8>) -> Seq<u8> {
    inside(home, ".rini"@)
}

/// The layout snapshot, below `home`.
pub open spec fn restore_path(home: Seq<u8>) -> Seq<u8> {
    inside(data_path(home), "layout.ron"@)
}

/// The user's configuration, below `home`.
pub open spec fn config_path(home: Seq<u8>) -> Seq<u8> {
    inside(inside(inside(home, ".config"@), "rini"@), "config.toml"@)
}

/// The directory of saved layout state, below `home`.
pub fn data_dir_in(home: &[u8]) -> (r: Vec<u8>)
    ensures
        r@ == data_path(home@),
{
    join(home, ".rini")
}

/// The layout snapshot, below `home`.
pub fn restore_file_in(home: &[u8]) -> (r: Vec<u8>)
    ensures
        r@ == restore_path(home@),
{
    join(data_dir_in(home).as_slice(), "layout.ron")
}

/// The user's configuration, below `home`.
pub fn config_file_in(home: &[u8]) -> (r: Vec<u8>)
    ensures
        r@ == config_path(home@),
{
    join(join(join(home, ".config").as_slice(), "rini").as_slice(), "config.toml")
}

/// `~/.rini`: saved layout state. `None` without a home directory.
pub fn data_dir() -> (r: Option<Vec<u8>>)
    ensures
        exists|home: Option<Vec<u8>>| #[trigger]
            home_given(home) && maybe_path(r) == (match home {
                Some(dir) => Some(data_path(dir@)),
                None => None,
            }),
{
    let home: Option<Vec<u8>> = home_dir();
    assert(home_given(home));
    match home {
        Some(dir) => Some(data_dir_in(dir.as_slice())),
        None => None,
    }
}

/// `~/.rini/layout.ron`: the layout snapshot that is saved and restored. `None` without a home
/// directory.
pub fn restore_file() -> (r: Option<Vec<u8>>)
    ensures
        exists|home: Option<Vec<u8>>| #[trigger]
            home_given(home) && maybe_path(r) == (match home {
                Some(dir) => Some(restore_path(dir@)),
                None => None,
            }),
{
    let home: Option<Vec<u8>> = home_dir();
    assert(home_given(home));
    match home {
        Some(dir) => Some(restore_file_in(dir.as_slice())),
        None => None,
    }
}

/// `~/.config/rini/config.toml`: the user's configuration. `None` without a home directory.
pub fn config_file() -> (r: Option<Vec<u8>>)
    ensures
        exists|home: Option<Vec<u8>>| #[trigger]
            home_given(home) && maybe_path(r) == (match home {
                Some(dir) => Some(config_path(dir@)),
                None => None,
            }),
{
    let home: Option<Vec<u8>> = home_dir();
    assert(home_given(home));
    match home {
        Some(dir) => Some(config_file_in(dir.as_slice())),
        None => None,
    }
}

/// The layout snapshot sits in the data directory, under its own name.
pub proof fn the_layout_snapshot_sits_in_the_data_dir(home: Seq<u8>)
    ensures
        restore_path(home) == data_path(home) + encode_utf8("/layout.ron"@),
        config_path(home) == inside(home, ".config"@) + encode_utf8("/rini/config.toml"@),
{
    broadcast use vstd::utf8::is_ascii_chars_encode_utf8;

    reveal_strlit(".rini");
    reveal_strlit("layout.ron");
    reveal_strlit("/layout.ron");
    reveal_strlit(".config");
    reveal_strlit("rini");
    reveal_strlit("config.toml");
    reveal_strlit("/rini/config.toml");
    assert(vstd::utf8::is_ascii_chars(".rini"@));
    assert(vstd::utf8::is_ascii_chars("layout.ron"@));
    assert(vstd::utf8::is_ascii_chars("/layout.ron"@));
    assert(vstd::utf8::is_ascii_chars(".config"@));
    assert(vstd::utf8::is_ascii_chars("rini"@));
    assert(vstd::utf8::is_ascii_chars("config.toml"@));
    assert(vstd::utf8::is_ascii_chars("/rini/config.toml"@));
    let data = data_path(home);
    assert(encode_utf8(".rini"@)[4] == ".rini"@[4] as u8);
    assert(data.last() != SLASH);
    assert(encode_utf8("/layout.ron"@)[0] == "/layout.ron"@[0] as u8);
    assert(restore_path(home) =~= data + encode_utf8("/layout.ron"@));
    let config = inside(home, ".config"@);
    assert(encode_utf8(".config"@)[6] == ".config"@[6] as u8);
    assert(config.last() != SLASH);
    let rini = inside(config, "rini"@);
    assert(encode_utf8("rini"@)[3] == "rini"@[3] as u8);
    assert(rini.last() != SLASH);
    assert(config_path(home) =~= config + encode_utf8("/rini/config.toml"@));
}

/// What is inside a directory is named behind it, with one slash between them; a directory that ends
/// with a slash, and one without a name, gets no other.
pub proof fn one_slash_stands_between(base: Seq<u8>, name: Seq<char>)
    ensures
        base.len() > 0 && base.last() != 47 ==> inside(base, name) == base + seq![47u8]
            + encode_utf8(name),
        base.len() == 0 || base.last() == 47 ==> inside(base, name) == base + encode_utf8(name),
        inside(base, name).take(base.len() as int) == base,
{
    if base.len() > 0 && base.last() != 47 {
        assert(base.push(SLASH) =~= base + seq![47u8]);
    }
    assert(inside(base, name).take(base.len() as int) =~= base);
}

/// Below a home directory the files go by these names.
pub proof fn the_files_go_by_these_names(home: Seq<u8>)
    requires
        home.len() > 0,
        home.last() != 47,
    ensures
        data_path(home) == home + encode_utf8("/.rini"@),
        restore_path(home) == home + encode_utf8("/.rini"@) + encode_utf8("/layout.ron"@),
        config_path(home) == home + encode_utf8("/.config"@) + encode_utf8("/rini/config.toml"@),
{
    broadcast use vstd::utf8::is_ascii_chars_encode_utf8;

    the_layout_snapshot_sits_in_the_data_dir(home);
    reveal_strlit(".rini");
    reveal_strlit("/.rini");
    reveal_strlit(".config");
    reveal_strlit("/.config");
    assert(vstd::utf8::is_ascii_chars(".rini"@));
    assert(vstd::utf8::is_ascii_chars("/.rini"@));
    assert(vstd::utf8::is_ascii_chars(".config"@));
    assert(vstd::utf8::is_ascii_chars("/.config"@));
    assert(encode_utf8("/.rini"@)[0] == "/.rini"@[0] as u8);
    assert(encode_utf8("/.config"@)[0] == "/.config"@[0] as u8);
    assert(data_path(home) =~= home + encode_utf8("/.rini"@));
    assert(inside(home, ".config"@) =~= home + encode_utf8("/.config"@));
}

/// The files are found below the home directory that was given, and nowhere without one.
pub proof fn a_file_is_below_the_given_home(
    base: &[u8],
    data: Vec<u8>,
    restore: Vec<u8>,
    config: Vec<u8>,
)
    requires
        call_ensures(data_dir_in, (base,), data),
        call_ensures(restore_file_in, (base,), restore),
        call_ensures(config_file_in, (base,), config),
        base@.len() > 0,
        base@.last() != 47,
    ensures
        data@ == base@ + encode_utf8("/.rini"@),
        restore@ == data@ + encode_utf8("/layout.ron"@),
        config@ == base@ + encode_utf8("/.config"@) + encode_utf8("/rini/config.toml"@),
{
    the_files_go_by_these_names(base@);
}

} // verus!
