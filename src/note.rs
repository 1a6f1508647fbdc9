//! Notes, the coin commitments made from them, nullifiers, and the
//! commitments (bullas) to DAO parameters and proposals.

use crate::crypto::{
    decrypt_of, decrypt_payload, encrypt_of, encrypt_payload, lemma_payload_round_trip,
    point_mul_of, public_of, DecryptionError, EncryptedPayload,
};
use crate::field::{hash_fields, hash_fields_of, Fe};
use vstd::prelude::*;

verus! {

/// The plaintext record of a coin, for its recipient.
#[derive(Clone, Copy, Debug, PartialEq, Eq, Structural)]
pub struct Note {
    pub value: u64,
    pub token_id: Fe,
    pub serial: Fe,
    /// Zero, or the function that must be called in any transaction spending the coin.
    pub spend_hook: Fe,
    /// Data that the spend hook checks.
    pub user_data: Fe,
    pub coin_blind: Fe,
    /// Blind of the value commitment that goes with the coin.
    pub value_blind: Fe,
}

/// A small integer as a field element.
pub open spec fn fe(v: u64) -> Fe {
    Fe::spec_from_u64(v)
}

/// The coin commitment of a note sent to a public key.
pub open spec fn coin_of(public_key: Fe, n: Note) -> Fe {
    hash_fields_of(
        "daod-coin"@,
        seq![public_key, fe(n.value), n.token_id, n.serial, n.spend_hook, n.user_data, n.coin_blind],
    )
}

/// The nullifier that spending a coin reveals.
pub open spec fn nullifier_of(secret: Fe, serial: Fe) -> Fe {
    hash_fields_of("daod-nullifier"@, seq![secret, serial])
}

/// The note as a sequence of elements.
pub open spec fn note_fields(n: Note) -> Seq<Fe> {
    seq![fe(n.value), n.token_id, n.serial, n.spend_hook, n.user_data, n.coin_blind, n.value_blind]
}

/// The note that a sequence of elements holds, if it holds one.
pub open spec fn note_from_fields(s: Seq<Fe>) -> Option<Note> {
    if s.len() == 7 && s[0].l1 == 0 && s[0].l2 == 0 && s[0].l3 == 0 {
        Some(
            Note {
                value: s[0].l0,
                token_id: s[1],
                serial: s[2],
                spend_hook: s[3],
                user_data: s[4],
                coin_blind: s[5],
                value_blind: s[6],
            },
        )
    } else {
        None
    }
}

fn vec7(a: Fe, b: Fe, c: Fe, d: Fe, e: Fe, f: Fe, g: Fe) -> (r: Vec<Fe>)
    ensures
        r@ == seq![a, b, c, d, e, f, g],
{
    let mut v: Vec<Fe> = Vec::new();
    v.push(a);
    v.push(b);
    v.push(c);
    v.push(d);
    v.push(e);
    v.push(f);
    v.push(g);
    assert(v@ =~= seq![a, b, c, d, e, f, g]);
    v
}

impl Note {
    /// The coin commitment of this note sent to `public_key`.
    pub fn coin(&self, public_key: Fe) -> (r: Fe)
        ensures
            r == coin_of(public_key, *self),
    {
        let v = vec7(
            public_key,
            Fe::from_u64(self.value),
            self.token_id,
            self.serial,
            self.spend_hook,
            self.user_data,
            self.coin_blind,
        );
        proof {
            reveal_strlit("daod-coin");
        }
        hash_fields("daod-coin", &v)
    }

    pub fn to_fields(&self) -> (r: Vec<Fe>)
        ensures
            r@ == note_fields(*self),
    {
        vec7(
            Fe::from_u64(self.value),
            self.token_id,
            self.serial,
            self.spend_hook,
            self.user_data,
            self.coin_blind,
            self.value_blind,
        )
    }

    pub fn from_fields(s: &Vec<Fe>) -> (r: Option<Note>)
        ensures
            r == note_from_fields(s@),
    {
        if s.len() == 7 && s[0].l1 == 0 && s[0].l2 == 0 && s[0].l3 == 0 {
            Some(
                Note {
                    value: s[0].l0,
                    token_id: s[1],
                    serial: s[2],
                    spend_hook: s[3],
                    user_data: s[4],
                    coin_blind: s[5],
                    value_blind: s[6],
                },
            )
        } else {
            None
        }
    }

    /// Encrypts the note to `recipient` under an ephemeral secret.
    pub fn encrypt(&self, recipient: Fe, ephem_secret: Fe) -> (r: Option<EncryptedPayload>)
        ensures
            match (r, encrypt_of(recipient, ephem_secret, note_fields(*self))) {
                (Some(e), Some(x)) => x == (e.ephem_public, e.ciphertext@, e.tag),
                (None, None) => true,
                _ => false,
            },
    {
        encrypt_payload(recipient, ephem_secret, &self.to_fields())
    }

    /// Decrypts a note with a secret key.
    pub fn decrypt(secret: Fe, enc: &EncryptedPayload) -> (r: Result<Note, DecryptionError>)
        ensures
            r == note_decrypt_of(secret, enc.ephem_public, enc.ciphertext@, enc.tag),
    {
        match decrypt_payload(secret, enc) {
            Ok(p) => match Note::from_fields(&p) {
                Some(n) => Ok(n),
                None => Err(DecryptionError::DecryptionError),
            },
            Err(e) => Err(e),
        }
    }
}

/// The note that `secret` recovers from an encrypted payload.
pub open spec fn note_decrypt_of(secret: Fe, ephem_public: Fe, c: Seq<Fe>, tag: Fe) -> Result<
    Note,
    DecryptionError,
> {
    match decrypt_of(secret, ephem_public, c, tag) {
        Some(p) => match note_from_fields(p) {
            Some(n) => Ok(n),
            None => Err(DecryptionError::DecryptionError),
        },
        None => Err(DecryptionError::DecryptionError),
    }
}

/// A note encrypted to the public key of a secret key decrypts with that
/// secret key to the same note, whenever the key agreement meets on one
/// shared point.
pub proof fn lemma_note_round_trip(secret: Fe, ephem_secret: Fe, n: Note)
    requires
        public_of(secret).is_some(),
        public_of(ephem_secret).is_some(),
        point_mul_of(public_of(secret).unwrap(), ephem_secret) == point_mul_of(
            public_of(ephem_secret).unwrap(),
            secret,
        ),
    ensures
        match encrypt_of(public_of(secret).unwrap(), ephem_secret, note_fields(n)) {
            Some((e, c, t)) => note_decrypt_of(secret, e, c, t) == Ok::<Note, DecryptionError>(n),
            None => true,
        },
{
    lemma_payload_round_trip(secret, ephem_secret, note_fields(n));
    assert(note_from_fields(note_fields(n)) == Some(n));
}

/// Computes the nullifier of a coin.
pub fn nullifier(secret: Fe, serial: Fe) -> (r: Fe)
    ensures
        r == nullifier_of(secret, serial),
{
    let mut v: Vec<Fe> = Vec::new();
    v.push(secret);
    v.push(serial);
    assert(v@ =~= seq![secret, serial]);
    proof {
        reveal_strlit("daod-nullifier");
    }
    hash_fields("daod-nullifier", &v)
}

} // verus!
