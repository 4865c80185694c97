//! What validation accepts, which program a request starts, and how the key of a
//! connection's window is made, each stated over the inputs alone.
use vstd::prelude::*;

use crate::config::ConnectionConfig;
use crate::ghostty::{connection_key, fnv, fnv_step};
use crate::herdr::{runs_herdr, strings_view, EnvValue, HerdrCommand, HerdrProgram};
use crate::text::trim;

verus! {

/// A control character in the sense of `char::is_control`: U+0000..=U+001F or U+007F..=U+009F.
pub open spec fn control_free(s: Seq<char>) -> bool {
    forall|i: int| 0 <= i < s.len() ==> !(#[trigger] s[i] <= '\u{1f}' || ('\u{7f}' <= s[i] && s[i] <= '\u{9f}'))
}

/// Validation accepts exactly the settings whose trimmed host, when there is one,
/// does not start with `-` and holds no control character, and whose trimmed
/// executable is not empty and holds no control character. Any other host, such
/// as `me@devbox`, is accepted.
pub proof fn law_validation_accepts_exactly(config: ConnectionConfig)
    ensures
        config.is_valid() <==> {
            let host = trim(config.ssh_target@);
            let binary = trim(config.remote_herdr@);
            &&& host.len() > 0 ==> host[0] != '-' && control_free(host)
            &&& binary.len() > 0 && control_free(binary)
        },
{
}

/// A local request starts the executable that the settings and `HERDR_BIN_PATH`
/// name: with the bare setting `herdr`, the path in `HERDR_BIN_PATH` when it is
/// set (as the environment holds it when it is not Unicode), else `herdr`; with
/// any other setting, the setting itself. Its arguments are the request's own.
pub proof fn law_local_request_program(
    command: HerdrCommand,
    config: ConnectionConfig,
    arguments: Seq<Seq<char>>,
    env: EnvValue,
)
    requires
        runs_herdr(command, config, arguments, env),
        trim(config.ssh_target@).len() == 0,
    ensures
        strings_view(command.args@) == arguments,
        config.remote_herdr@ != "herdr"@ ==> (command.program matches HerdrProgram::Named(p) && p@
            == config.remote_herdr@),
        config.remote_herdr@ == "herdr"@ ==> match env {
            EnvValue::Text(path) => command.program matches HerdrProgram::Named(p) && p@ == path@,
            EnvValue::Unset => command.program matches HerdrProgram::Named(p) && p@ == "herdr"@,
            EnvValue::NotUnicode => command.program is HerdrBinPath,
        },
{
}

/// FNV-1a, 64 bits, over `bytes` from `hash`, byte by byte from the first.
pub open spec fn fnv1a(hash: u64, bytes: Seq<u8>) -> u64
    decreases bytes.len(),
{
    if bytes.len() == 0 {
        hash
    } else {
        fnv1a(
            (((hash ^ (bytes[0] as u64)) as nat * 0x100000001b3nat) % 0x1_0000_0000_0000_0000nat) as u64,
            bytes.drop_first(),
        )
    }
}

/// A field hashed for a connection: its UTF-8 bytes and then `0xff`.
pub open spec fn key_field(s: Seq<char>) -> Seq<u8> {
    vstd::utf8::encode_utf8(s) + seq![0xffu8]
}

proof fn lemma_fnv1a_push(hash: u64, bytes: Seq<u8>, last: u8)
    ensures
        fnv1a(hash, bytes.push(last)) == fnv_step(fnv1a(hash, bytes), last),
    decreases bytes.len(),
{
    if bytes.len() == 0 {
        let one = bytes.push(last);
        assert(one.drop_first() =~= Seq::<u8>::empty());
        assert(one[0] == last);
        let x = hash ^ (last as u64);
        assert(crate::ghostty::FNV_PRIME as nat == 0x100000001b3nat);
        assert(vstd::wrapping::u64_specs::wrapping_mul(x, crate::ghostty::FNV_PRIME) == ((x as nat
            * 0x100000001b3nat) % 0x1_0000_0000_0000_0000nat) as u64);
        assert(fnv1a(hash, one) == fnv1a(((x as nat * 0x100000001b3nat) % 0x1_0000_0000_0000_0000nat) as u64, one.drop_first()));
    } else {
        let next = (((hash ^ (bytes[0] as u64)) as nat * 0x100000001b3nat) % 0x1_0000_0000_0000_0000nat) as u64;
        lemma_fnv1a_push(next, bytes.drop_first(), last);
        assert(bytes.push(last).drop_first() =~= bytes.drop_first().push(last));
    }
}

proof fn lemma_fnv_is_fnv1a(hash: u64, bytes: Seq<u8>)
    ensures
        fnv(hash, bytes) == fnv1a(hash, bytes),
    decreases bytes.len(),
{
    if bytes.len() > 0 {
        lemma_fnv_is_fnv1a(hash, bytes.drop_last());
        lemma_fnv1a_push(hash, bytes.drop_last(), bytes.last());
        assert(bytes.drop_last().push(bytes.last()) =~= bytes);
    }
}

/// The key of a connection's window is 64-bit FNV-1a (offset 0xcbf29ce484222325,
/// prime 0x100000001b3) over the mode (`ssh` or `local`), the whole trimmed host
/// and the whole trimmed executable, each in UTF-8 and followed by `0xff`.
pub proof fn law_connection_key_is_fnv1a(config: ConnectionConfig)
    ensures
        connection_key(config) == fnv1a(
            0xcbf29ce484222325u64,
            key_field(
                if trim(config.ssh_target@).len() > 0 {
                    "ssh"@
                } else {
                    "local"@
                },
            ) + key_field(trim(config.ssh_target@)) + key_field(trim(config.remote_herdr@)),
        ),
{
    let mode = if trim(config.ssh_target@).len() > 0 {
        "ssh"@
    } else {
        "local"@
    };
    let bytes = key_field(mode) + key_field(trim(config.ssh_target@)) + key_field(trim(config.remote_herdr@));
    assert(crate::ghostty::connection_bytes(config) =~= bytes);
    lemma_fnv_is_fnv1a(0xcbf29ce484222325u64, bytes);
}

}
