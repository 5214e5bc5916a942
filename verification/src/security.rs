use vstd::prelude::*;
use vstd::utf8::encode_utf8;
use crate::clock::unix_now_secs;
use crate::hexutil::hex_chars_of;
use crate::strutil::dec_chars;
use crate::strutil::u64_to_string;
use crate::hexutil::u32_to_hex;

verus! {

/// The roles a caller can hold.
#[derive(Clone, Copy, Debug, PartialEq, Eq, Structural)]
pub enum Role {
    Admin,
    Auditor,
    Agent,
    Viewer,
}

/// The authenticated caller of a command.
#[derive(Debug)]
pub struct UserContext {
    pub user_id: String,
    pub roles: Vec<Role>,
    pub auth_token: String,
}

/// Role-based access control: a caller may act with a role they
/// hold, and an administrator may act with any role.
pub struct RBAC {
}

/// The role list holds this role.
pub open spec fn holds_role(roles: Seq<Role>, role: Role) -> bool {
    exists|i: int| 0 <= i < roles.len() && roles[i] == role
}

impl RBAC {
    pub fn new() -> RBAC {
        RBAC {  }
    }

    /// Authorization: granted exactly when the caller holds the
    /// required role or the administrator role.
    pub fn authorize(&self, user: &UserContext, required_role: Role) -> (r: bool)
        ensures
            r == (holds_role(user.roles@, Role::Admin) || holds_role(user.roles@, required_role)),
    {
        let mut i: usize = 0;
        let mut has_admin = false;
        let mut has_required = false;
        while i < user.roles.len()
            invariant
                i <= user.roles@.len(),
                has_admin == holds_role(user.roles@.take(i as int), Role::Admin),
                has_required == holds_role(user.roles@.take(i as int), required_role),
            decreases user.roles@.len() - i,
        {
            let role = user.roles[i];
            proof {
                assert(user.roles@.take(i + 1).drop_last() =~= user.roles@.take(i as int));
                assert forall|rr: Role| holds_role(user.roles@.take(i + 1), rr) == (holds_role(
                    user.roles@.take(i as int),
                    rr,
                ) || user.roles@[i as int] == rr) by {
                    let t = user.roles@.take(i + 1);
                    if holds_role(t, rr) {
                        let w = choose|w: int| 0 <= w < t.len() && t[w] == rr;
                        if w < i {
                            assert(user.roles@.take(i as int)[w] == rr);
                        }
                    }
                    if holds_role(user.roles@.take(i as int), rr) {
                        let w = choose|w: int|
                            0 <= w < user.roles@.take(i as int).len() && user.roles@.take(
                                i as int,
                            )[w] == rr;
                        assert(t[w] == rr);
                    }
                    if user.roles@[i as int] == rr {
                        assert(t[i as int] == rr);
                    }
                }
            }
            if role == Role::Admin {
                has_admin = true;
            }
            if role == required_role {
                has_required = true;
            }
            i = i + 1;
        }
        proof {
            assert(user.roles@.take(user.roles@.len() as int) =~= user.roles@);
        }
        has_admin || has_required
    }
}

/// Sum of a byte sequence, reduced modulo 2^32.
pub open spec fn byte_sum_mod(bytes: Seq<u8>) -> int
    decreases bytes.len(),
{
    if bytes.len() == 0 {
        0
    } else {
        (byte_sum_mod(bytes.drop_last()) + bytes.last()) % 0x1_0000_0000
    }
}

/// The tag `sign` computes for a message: the byte sum (mod 2^32)
/// masked with a fixed pattern, in hexadecimal.
pub open spec fn sig_chars(bytes: Seq<u8>) -> Seq<char> {
    hex_chars_of(((byte_sum_mod(bytes) as u32) ^ 0xDEADBEEFu32) as nat)
}

/// Writes tagged, timestamped audit entries.
pub struct AuditLogger {
    pub key: String,
}

impl AuditLogger {
    pub fn new() -> (r: AuditLogger)
        ensures
            r.key@ == "ENTERPRISE_AES_256_KEY"@,
    {
        AuditLogger { key: String::from_str("ENTERPRISE_AES_256_KEY") }
    }

    /// One audit line: a fixed marker, the clock reading, the user,
    /// the event, and the event's tag.
    pub fn log(&self, event: &str, user: &UserContext) -> (r: String)
        ensures
            exists|t: nat|
                r@ == "[ENCRYPTED-AES256] TIMESTAMP="@ + #[trigger] dec_chars(t) + " USER="@
                    + user.user_id@ + " EVENT="@ + event@ + " SIG="@ + sig_chars(
                    encode_utf8(event@),
                ),
    {
        let now = unix_now_secs();
        let mut r = String::from_str("[ENCRYPTED-AES256] TIMESTAMP=");
        r.append(u64_to_string(now).as_str());
        r.append(" USER=");
        r.append(user.user_id.as_str());
        r.append(" EVENT=");
        r.append(event);
        r.append(" SIG=");
        let sig = self.sign(event);
        r.append(sig.as_str());
        proof {
            assert(r@ == "[ENCRYPTED-AES256] TIMESTAMP="@ + dec_chars(now as nat) + " USER="@
                + user.user_id@ + " EVENT="@ + event@ + " SIG="@ + sig_chars(encode_utf8(event@)));
        }
        r
    }

    /// The stand-in tag of a message: its byte sum (mod 2^32) masked
    /// with a fixed pattern, in hexadecimal.
    pub fn sign(&self, data: &str) -> (r: String)
        ensures
            r@ == sig_chars(encode_utf8(data@)),
    {
        let bytes = data.as_bytes_vec();
        let mut sum: u64 = 0;
        let mut i: usize = 0;
        while i < bytes.len()
            invariant
                i <= bytes@.len(),
                0 <= sum < 0x1_0000_0000u64,
                sum == byte_sum_mod(bytes@.take(i as int)),
            decreases bytes@.len() - i,
        {
            sum = (sum + bytes[i] as u64) % 0x1_0000_0000u64;
            i = i + 1;
            proof {
                assert(bytes@.take(i as int).drop_last() =~= bytes@.take(i - 1));
            }
        }
        proof {
            assert(bytes@.take(bytes@.len() as int) =~= bytes@);
        }
        let masked: u32 = (sum as u32) ^ 0xDEADBEEFu32;
        u32_to_hex(masked)
    }
}

} // verus!
