use sha2::Digest;
use vstd::prelude::*;
use vstd::string::StringSliceAdditionalSpecFns;
use vstd::utf8::encode_utf8;

use crate::decimal::{dec_chars, u64_to_dec_string};
use crate::error::ContractError;
use crate::hexcode::{hex_decode, hex_decoded, is_hex_bytes};
use crate::lexord::{bytes_eq, lex_le, lex_le_bytes};

verus! {

/// The named result of SHA-256: a function of the input bytes alone, the
/// same in every process and on every machine.
pub uninterp spec fn sha256_of(data: Seq<u8>) -> Seq<u8>;

/// Relies on sha2::Sha256::digest: the digest depends on the input bytes
/// alone and is 32 bytes long.
#[verifier::external_body]
fn sha256(data: &[u8]) -> (r: Vec<u8>)
    ensures
        r@ == sha256_of(data@),
        r@.len() == 32,
{
    sha2::Sha256::digest(data).to_vec()
}

/// The preimage of a leaf: the claimed address and both caps, rendered in
/// decimal and concatenated without separators, as UTF-8 bytes.
pub open spec fn leaf_bytes(sender: Seq<char>, private_allocation: u64, public_allocation: u64) -> Seq<u8> {
    encode_utf8(sender + dec_chars(private_allocation as nat) + dec_chars(public_allocation as nat))
}

pub open spec fn leaf_hash(sender: Seq<char>, private_allocation: u64, public_allocation: u64) -> Seq<u8> {
    sha256_of(leaf_bytes(sender, private_allocation, public_allocation))
}

/// One fold step: the two hashes are concatenated in byte order before
/// hashing, so the order of the pair in the proof does not matter.
pub open spec fn node_hash(a: Seq<u8>, b: Seq<u8>) -> Seq<u8> {
    if lex_le(a, b) {
        sha256_of(a + b)
    } else {
        sha256_of(b + a)
    }
}

pub open spec fn fold_siblings(h: Seq<u8>, siblings: Seq<Seq<u8>>) -> Seq<u8>
    decreases siblings.len(),
{
    if siblings.len() == 0 {
        h
    } else {
        fold_siblings(node_hash(h, siblings[0]), siblings.drop_first())
    }
}

proof fn lemma_fold_siblings_snoc(h: Seq<u8>, siblings: Seq<Seq<u8>>, x: Seq<u8>)
    ensures
        fold_siblings(h, siblings.push(x)) == node_hash(fold_siblings(h, siblings), x),
    decreases siblings.len(),
{
    if siblings.len() == 0 {
        assert(siblings.push(x)[0] == x);
        assert(siblings.push(x).drop_first() =~= Seq::<Seq<u8>>::empty());
        assert(fold_siblings(h, siblings.push(x)) == fold_siblings(
            node_hash(h, x),
            Seq::<Seq<u8>>::empty(),
        ));
        assert(fold_siblings(node_hash(h, x), Seq::<Seq<u8>>::empty()) == node_hash(h, x));
        assert(fold_siblings(h, siblings) == h);
    } else {
        assert(siblings.push(x)[0] == siblings[0]);
        assert(siblings.push(x).drop_first() =~= siblings.drop_first().push(x));
        assert(fold_siblings(h, siblings.push(x)) == fold_siblings(
            node_hash(h, siblings[0]),
            siblings.drop_first().push(x),
        ));
        lemma_fold_siblings_snoc(node_hash(h, siblings[0]), siblings.drop_first(), x);
        assert(fold_siblings(h, siblings) == fold_siblings(
            node_hash(h, siblings[0]),
            siblings.drop_first(),
        ));
    }
}

/// A proof element must be the hex encoding of a 32-byte hash.
pub open spec fn proof_elem_ok(p: Seq<char>) -> bool {
    is_hex_bytes(encode_utf8(p)) && encode_utf8(p).len() == 64
}

pub open spec fn decoded_elem(p: Seq<char>) -> Seq<u8> {
    hex_decoded(encode_utf8(p))
}

use crate::table::str_views;

pub open spec fn decoded_elems(ps: Seq<Seq<char>>) -> Seq<Seq<u8>> {
    ps.map_values(|p: Seq<char>| decoded_elem(p))
}

pub open spec fn all_elems_ok(ps: Seq<Seq<char>>) -> bool {
    forall|i: int| 0 <= i < ps.len() ==> proof_elem_ok(#[trigger] ps[i])
}

pub open spec fn root_ok(root: Seq<char>) -> bool {
    is_hex_bytes(encode_utf8(root)) && encode_utf8(root).len() == 64
}

/// The hash the claimed leaf accumulates along the sibling path.
pub open spec fn computed_root(
    sender: Seq<char>,
    private_allocation: u64,
    public_allocation: u64,
    ps: Seq<Seq<char>>,
) -> Seq<u8> {
    fold_siblings(leaf_hash(sender, private_allocation, public_allocation), decoded_elems(ps))
}

pub open spec fn proof_matches(
    sender: Seq<char>,
    private_allocation: u64,
    public_allocation: u64,
    ps: Seq<Seq<char>>,
    root: Seq<char>,
) -> bool {
    computed_root(sender, private_allocation, public_allocation, ps) == hex_decoded(
        encode_utf8(root),
    )
}

/// Exactly when verification accepts: every proof element and the root
/// decode to 32-byte hashes and the accumulated hash equals the root.
pub open spec fn verify_ok(
    sender: Seq<char>,
    private_allocation: u64,
    public_allocation: u64,
    ps: Seq<Seq<char>>,
    root: Seq<char>,
) -> bool {
    &&& all_elems_ok(ps)
    &&& root_ok(root)
    &&& proof_matches(sender, private_allocation, public_allocation, ps, root)
}

fn concat_bytes(a: &Vec<u8>, b: &Vec<u8>) -> (c: Vec<u8>)
    ensures
        c@ == a@ + b@,
{
    let mut c: Vec<u8> = Vec::new();
    let a_len = a.len();
    let mut i: usize = 0;
    while i < a_len
        invariant
            i <= a_len,
            a_len == a@.len(),
            c@ =~= a@.take(i as int),
        decreases a_len - i,
    {
        c.push(a[i]);
        i = i + 1;
    }
    let b_len = b.len();
    let mut j: usize = 0;
    while j < b_len
        invariant
            j <= b_len,
            b_len == b@.len(),
            c@ =~= a@ + b@.take(j as int),
        decreases b_len - j,
    {
        c.push(b[j]);
        j = j + 1;
    }
    proof {
        assert(c@ =~= a@ + b@);
    }
    c
}

/// Check that `(sender, private_allocation, public_allocation)` is a leaf
/// under the published hex-encoded `merkle_root`, folding the sibling path
/// with sorted-pair hashing. Proof elements are checked in order before the
/// root is decoded; a malformed element or root is a decode error, a
/// diverging hash a mismatch.
pub fn verify_proof(
    sender: &String,
    private_allocation: u64,
    public_allocation: u64,
    proof: &Vec<String>,
    merkle_root: &String,
) -> (r: Result<(), ContractError>)
    ensures
        r is Ok <==> verify_ok(
            sender@,
            private_allocation,
            public_allocation,
            str_views(proof@),
            merkle_root@,
        ),
        r == Err::<(), ContractError>(ContractError::ProofDecodeError) <==> !all_elems_ok(
            str_views(proof@),
        ) || (all_elems_ok(str_views(proof@)) && !root_ok(merkle_root@)),
        r == Err::<(), ContractError>(ContractError::ProofMismatch) <==> all_elems_ok(
            str_views(proof@),
        ) && root_ok(merkle_root@) && !proof_matches(
            sender@,
            private_allocation,
            public_allocation,
            str_views(proof@),
            merkle_root@,
        ),
{
    let ghost views = str_views(proof@);
    let mut input: String = sender.clone();
    let pa = u64_to_dec_string(private_allocation);
    input.append(pa.as_str());
    let pb = u64_to_dec_string(public_allocation);
    input.append(pb.as_str());
    proof {
        assert(input@ == sender@ + dec_chars(private_allocation as nat) + dec_chars(
            public_allocation as nat,
        ));
    }
    let mut cur: Vec<u8> = sha256(input.as_str().as_bytes());
    let n = proof.len();
    let mut idx: usize = 0;
    proof {
        assert(decoded_elems(views.take(0)) =~= Seq::<Seq<u8>>::empty());
    }
    while idx < n
        invariant
            n == proof@.len(),
            n == views.len(),
            views == str_views(proof@),
            idx <= n,
            forall|j: int| 0 <= j < idx ==> proof_elem_ok(#[trigger] views[j]),
            cur@ == fold_siblings(
                leaf_hash(sender@, private_allocation, public_allocation),
                decoded_elems(views.take(idx as int)),
            ),
            cur@.len() == 32,
        decreases n - idx,
    {
        let p = &proof[idx];
        proof {
            assert(views[idx as int] == p@);
        }
        let buf = match hex_decode(p.as_str().as_bytes()) {
            Some(buf) => buf,
            None => {
                return Err(ContractError::ProofDecodeError);
            },
        };
        if buf.len() != 32 {
            proof {
                assert(!proof_elem_ok(views[idx as int]));
            }
            return Err(ContractError::ProofDecodeError);
        }
        let cat = if lex_le_bytes(cur.as_slice(), buf.as_slice()) {
            concat_bytes(&cur, &buf)
        } else {
            concat_bytes(&buf, &cur)
        };
        cur = sha256(cat.as_slice());
        proof {
            assert(cur@ == node_hash(
                fold_siblings(
                    leaf_hash(sender@, private_allocation, public_allocation),
                    decoded_elems(views.take(idx as int)),
                ),
                decoded_elem(views[idx as int]),
            ));
            assert(decoded_elems(views.take(idx as int + 1)) =~= decoded_elems(
                views.take(idx as int),
            ).push(decoded_elem(views[idx as int])));
            lemma_fold_siblings_snoc(
                leaf_hash(sender@, private_allocation, public_allocation),
                decoded_elems(views.take(idx as int)),
                decoded_elem(views[idx as int]),
            );
        }
        idx = idx + 1;
    }
    proof {
        assert(views.take(n as int) =~= views);
    }
    let root_buf = match hex_decode(merkle_root.as_str().as_bytes()) {
        Some(root_buf) => root_buf,
        None => {
            return Err(ContractError::ProofDecodeError);
        },
    };
    if root_buf.len() != 32 {
        return Err(ContractError::ProofDecodeError);
    }
    if bytes_eq(cur.as_slice(), root_buf.as_slice()) {
        Ok(())
    } else {
        Err(ContractError::ProofMismatch)
    }
}

/// Round trip: a leaf whose sibling path folds to the published root is
/// accepted. Together with `verify_proof`'s contract this says a correctly
/// built proof always verifies.
pub proof fn lemma_merkle_round_trip(
    sender: Seq<char>,
    private_allocation: u64,
    public_allocation: u64,
    ps: Seq<Seq<char>>,
    root: Seq<char>,
)
    requires
        all_elems_ok(ps),
        root_ok(root),
        hex_decoded(encode_utf8(root)) == computed_root(
            sender,
            private_allocation,
            public_allocation,
            ps,
        ),
    ensures
        verify_ok(sender, private_allocation, public_allocation, ps, root),
{
}

} // verus!
