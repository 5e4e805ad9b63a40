//! What holds of sealing and opening datagrams, and of what counts for pacing.

use crate::datagram_replay::SecureDatagramDirection;
use crate::packet::{Packet, PacketModel};
use crate::receiver_pacing::PacerState;
use crate::secure_datagram::{CipherRequest, DatagramError, DatagramModel, KeyDomain};
use vstd::prelude::*;

verus! {

/// A packet is sealed by every valid session that has a nonce left, if it has a
/// header; a batch is as its packets are.
pub proof fn lemma_valid_sessions_seal(
    session: DatagramModel,
    domain: KeyDomain,
    dir: SecureDatagramDirection,
    packet: Packet,
)
    ensures
        crate::secure_datagram::seals(session, domain, dir, packet@) is Ok <==> {
            &&& !session.invalidated
            &&& session.sequences(domain).next(dir) < u64::MAX
            &&& packet.header is Some
        },
        session.invalidated ==> crate::secure_datagram::seals(session, domain, dir, packet@)
            == Err::<(), DatagramError>(DatagramError::SessionInvalidated),
        crate::secure_datagram::sealable(session, domain, dir, seq![packet])
            == crate::secure_datagram::seals(session, domain, dir, packet@),
{
    let one = seq![packet];
    assert(one[0] == packet);
}

/// A batch is sealed if every packet of it can be and there is a nonce for each.
pub proof fn lemma_batches_are_sealed_whole(
    session: DatagramModel,
    domain: KeyDomain,
    dir: SecureDatagramDirection,
    packets: Seq<Packet>,
)
    requires
        packets.len() <= u64::MAX,
    ensures
        crate::secure_datagram::sealable(session, domain, dir, packets) is Ok <==> {
            &&& !session.invalidated
            &&& session.sequences(domain).next(dir) + packets.len() <= u64::MAX
            &&& forall|i: int| 0 <= i < packets.len() ==> (#[trigger] packets[i]).header is Some
        },
{
    if forall|i: int| 0 <= i < packets.len() ==> (#[trigger] packets[i]).header is Some {
        assert(forall|i: int| 0 <= i < packets.len() ==> (#[trigger] packets[i])@.header is Some);
    } else {
        let i = choose|i: int| 0 <= i < packets.len() && (#[trigger] packets[i]).header is None;
        assert(packets[i]@.header is None);
    }
}

/// Every packet of a batch is sealed under a sequence number of its own, in
/// order and from the next one on, in one epoch, under the key of that epoch and
/// over the stable bytes of its header.
pub proof fn lemma_sealed_packets_have_their_own_nonce(
    before: DatagramModel,
    after: DatagramModel,
    domain: KeyDomain,
    dir: SecureDatagramDirection,
    packets: Seq<Packet>,
    requests: Seq<CipherRequest>,
    i: int,
    j: int,
)
    requires
        crate::secure_datagram::sealed_with(before, after, domain, dir, packets, requests),
        before.sequences(domain).next(dir) + packets.len() <= u64::MAX,
        0 <= i < packets.len(),
        0 <= j < packets.len(),
        i != j,
    ensures
        requests.len() == packets.len(),
        requests[i]@.seq == before.sequences(domain).next(dir) + i,
        requests[i]@.seq != requests[j]@.seq,
        requests[i]@.epoch == after.send_epoch,
        requests[i]@.key == requests[j]@.key,
        requests[i]@.algorithm == before.send_cipher_algorithm,
        requests[i]@.aad == packets[i].header->0.stable_bytes(),
{
    let (a, b) = (requests[i], requests[j]);
    assert(packets[i]@.header == packets[i].header);
}

/// A packet is opened if and only if the session is valid, the packet is sealed
/// and long enough for its tail, and the nonce in the tail is acceptable: an
/// epoch of four bytes and a sequence number of eight, at the very end.
pub proof fn lemma_opened_packets_are_acceptable(
    session: DatagramModel,
    domain: KeyDomain,
    dir: SecureDatagramDirection,
    packet: PacketModel,
    now_ms: u64,
)
    ensures
        ({
            let n = packet.payload.len() as int;
            crate::secure_datagram::opens(session, domain, dir, packet, now_ms) is Ok <==> {
                &&& !session.invalidated
                &&& packet.header is Some
                &&& packet.header->0.flags % 2 == 1
                &&& n >= 28
                &&& session.acceptable(
                    domain,
                    dir,
                    crate::bytes::be_value(packet.payload.subrange(n - 12, n - 8)) as u32,
                    crate::bytes::be_value(packet.payload.subrange(n - 8, n)) as u64,
                    now_ms,
                )
            }
        }),
{
    if packet.header is Some {
        let f = packet.header->0.flags;
        assert((f & 0x01 != 0) <==> f % 2 == 1) by (bit_vector);
    }
}

/// Packets that do not open are counted up to ten, each domain for itself, and
/// one that opens starts the count again. Counting touches nothing else.
pub proof fn lemma_failures_are_counted(session: DatagramModel, domain: KeyDomain)
    requires
        session.decrypt_fail_count <= 10,
        session.fec_decrypt_fail_count <= 10,
    ensures
        ({
            let failed = session.with_failure(domain);
            let opened = session.with_success(domain);
            let standard = domain == KeyDomain::Standard;
            &&& standard && session.decrypt_fail_count < 10 ==> failed.decrypt_fail_count
                == session.decrypt_fail_count + 1
            &&& standard && session.decrypt_fail_count == 10 ==> failed.decrypt_fail_count == 10
            &&& standard ==> opened.decrypt_fail_count == 0 && failed.fec_decrypt_fail_count
                == session.fec_decrypt_fail_count && opened.fec_decrypt_fail_count
                == session.fec_decrypt_fail_count
            &&& !standard && session.fec_decrypt_fail_count < 10 ==> failed.fec_decrypt_fail_count
                == session.fec_decrypt_fail_count + 1
            &&& !standard && session.fec_decrypt_fail_count == 10
                ==> failed.fec_decrypt_fail_count == 10
            &&& !standard ==> opened.fec_decrypt_fail_count == 0 && failed.decrypt_fail_count
                == session.decrypt_fail_count && opened.decrypt_fail_count
                == session.decrypt_fail_count
            &&& failed.standard == session.standard && opened.standard == session.standard
            &&& failed.fec == session.fec && opened.fec == session.fec
            &&& failed.send_epoch == session.send_epoch && opened.send_epoch == session.send_epoch
            &&& failed.send_seq == session.send_seq && opened.send_seq == session.send_seq
            &&& failed.root_key == session.root_key && opened.root_key == session.root_key
            &&& failed.invalidated == session.invalidated && opened.invalidated
                == session.invalidated
        }),
{
}

/// Where a pressed receiver delivers nothing at all, the target falls by a tenth,
/// down to one mebibyte per second.
pub proof fn lemma_target_falls_without_delivery(state: PacerState, now_ns: u64)
    requires
        state.active,
    ensures
        state.pressed(0, now_ns).active,
        10 * state.pressed(0, now_ns).target_bytes_per_second <= 9 * state.target_bytes_per_second
            || state.pressed(0, now_ns).target_bytes_per_second == 1_048_576,
        state.target_bytes_per_second * 9 / 10 >= 1_048_576 ==> state.pressed(
            0,
            now_ns,
        ).target_bytes_per_second == state.target_bytes_per_second * 9 / 10,
        state.pressed(0, now_ns).target_bytes_per_second >= 1_048_576,
{
}

/// What counts for pacing is the payload of data, of any kind that carries some,
/// unless it is marked as critical.
pub proof fn lemma_only_data_is_paced(packet: PacketModel)
    ensures
        ({
            let kind = packet.header->0.packet_type;
            let paced = packet.header is Some && !packet.header->0.critical() && (kind == 1 || kind
                == 2 || 10 <= kind <= 18);
            &&& paced ==> crate::receiver_pacing::paced_bytes(packet) == packet.payload.len()
            &&& !paced ==> crate::receiver_pacing::paced_bytes(packet) == 0
        }),
{
}

/// A batch counts what its packets count, one by one.
pub proof fn lemma_batch_counts_its_packets(a: Seq<Packet>, b: Seq<Packet>, packet: Packet)
    ensures
        crate::receiver_pacing::paced_total(seq![packet]) == crate::receiver_pacing::paced_bytes(
            packet@,
        ),
        crate::receiver_pacing::paced_total(a + b) == crate::receiver_pacing::paced_total(a)
            + crate::receiver_pacing::paced_total(b),
    decreases b.len(),
{
    assert(seq![packet].drop_last() =~= Seq::<Packet>::empty());
    assert(crate::receiver_pacing::paced_total(Seq::<Packet>::empty()) == 0);
    assert(seq![packet].last() == packet);
    if b.len() == 0 {
        assert(a + b =~= a);
    } else {
        lemma_batch_counts_its_packets(a, b.drop_last(), packet);
        assert((a + b).drop_last() =~= a + b.drop_last());
        assert((a + b).last() == b.last());
    }
}

proof fn lemma_trimmed_start(text: Seq<char>)
    ensures
        ({
            let rest = crate::receiver_pacing::trimmed_start(text);
            let n = text.len() - rest.len();
            &&& 0 <= n
            &&& rest == text.skip(n)
            &&& forall|i: int|
                0 <= i < n ==> crate::receiver_pacing::is_white_space(#[trigger] text[i])
            &&& rest.len() > 0 ==> !crate::receiver_pacing::is_white_space(rest[0])
        }),
    decreases text.len(),
{
    if text.len() > 0 && crate::receiver_pacing::is_white_space(text[0]) {
        let tail = text.drop_first();
        lemma_trimmed_start(tail);
        let rest = crate::receiver_pacing::trimmed_start(text);
        let n = text.len() - rest.len();
        assert(rest =~= text.skip(n));
        assert forall|i: int| 0 <= i < n implies crate::receiver_pacing::is_white_space(
            #[trigger] text[i],
        ) by {
            if i > 0 {
                assert(tail[i - 1] == text[i]);
            }
        }
    } else {
        assert(text.skip(0) =~= text);
    }
}

proof fn lemma_trimmed_end(text: Seq<char>)
    ensures
        ({
            let rest = crate::receiver_pacing::trimmed_end(text);
            &&& rest.len() <= text.len()
            &&& rest == text.take(rest.len() as int)
            &&& forall|i: int|
                rest.len() <= i < text.len() ==> crate::receiver_pacing::is_white_space(
                    #[trigger] text[i],
                )
            &&& rest.len() > 0 ==> !crate::receiver_pacing::is_white_space(rest.last())
        }),
    decreases text.len(),
{
    if text.len() > 0 && crate::receiver_pacing::is_white_space(text.last()) {
        let front = text.drop_last();
        lemma_trimmed_end(front);
        let rest = crate::receiver_pacing::trimmed_end(text);
        assert(rest =~= text.take(rest.len() as int));
        assert forall|i: int|
            rest.len() <= i < text.len() implies crate::receiver_pacing::is_white_space(
            #[trigger] text[i],
        ) by {
            if i < front.len() {
                assert(front[i] == text[i]);
            }
        }
    } else {
        assert(text.take(text.len() as int) =~= text);
    }
}

/// A trimmed text is what is left between white space: it starts and ends with
/// something else, and nothing but white space is taken off.
pub proof fn lemma_only_white_space_is_trimmed(text: Seq<char>)
    ensures
        exists|from: int, to: int|
            {
                &&& 0 <= from <= to <= text.len()
                &&& crate::receiver_pacing::trimmed(text) == #[trigger] text.subrange(from, to)
                &&& forall|i: int|
                    (0 <= i < from || to <= i < text.len())
                        ==> crate::receiver_pacing::is_white_space(#[trigger] text[i])
                &&& from < to ==> !crate::receiver_pacing::is_white_space(text[from])
                    && !crate::receiver_pacing::is_white_space(text[to - 1])
            },
{
    let start = crate::receiver_pacing::trimmed_start(text);
    let word = crate::receiver_pacing::trimmed(text);
    lemma_trimmed_start(text);
    lemma_trimmed_end(start);
    let from = text.len() - start.len();
    let to = from + word.len();
    assert(word =~= text.subrange(from, to));
    assert forall|i: int| (0 <= i < from || to <= i < text.len()) implies
        crate::receiver_pacing::is_white_space(#[trigger] text[i]) by {
        if i >= to {
            assert(start[i - from] == text[i]);
        }
    }
    if from < to {
        assert(word[0] == start[0]);
        assert(start[0] == text[from]);
        assert(word.last() == text[to - 1]);
    }
}

/// Whether two letters are the same, or the same ASCII letter in another case.
pub open spec fn same_but_case(a: char, b: char) -> bool {
    ||| a == b
    ||| 'a' <= a && a <= 'z' && b as int + 32 == a as int
    ||| 'a' <= b && b <= 'z' && a as int + 32 == b as int
}

/// The words that switch something on do so in any case, and a single digit does
/// so only where it is one.
pub proof fn lemma_case_does_not_matter(word: Seq<char>, other: Seq<char>)
    requires
        word.len() == other.len(),
        forall|i: int| 0 <= i < word.len() ==> same_but_case(#[trigger] word[i], other[i]),
    ensures
        crate::receiver_pacing::is_on(word) == crate::receiver_pacing::is_on(other),
        crate::receiver_pacing::is_on("1"@),
        crate::receiver_pacing::is_on("true"@),
        crate::receiver_pacing::is_on("yes"@),
        crate::receiver_pacing::is_on("on"@),
        word.len() == 1 ==> (crate::receiver_pacing::is_on(word) <==> word[0] == '1'),
        word.len() == 0 || word.len() > 4 ==> !crate::receiver_pacing::is_on(word),
{
    reveal_strlit("1");
    reveal_strlit("true");
    reveal_strlit("yes");
    reveal_strlit("on");
    if word.len() == 1 && word[0] == '1' {
        assert(word =~= "1"@);
    }
    if other.len() == 1 && other[0] == '1' {
        assert(other =~= "1"@);
    }
    assert forall|lower: Seq<char>|
        (lower == "true"@ || lower == "yes"@ || lower == "on"@) implies (
    #[trigger] crate::receiver_pacing::same_word(word, lower) <==> crate::receiver_pacing::same_word(
        other,
        lower,
    )) by {
        if crate::receiver_pacing::same_word(word, lower) {
            assert forall|i: int| 0 <= i < lower.len() implies crate::receiver_pacing::same_letter(
                #[trigger] other[i],
                lower[i],
            ) by {
                assert(crate::receiver_pacing::same_letter(word[i], lower[i]));
                assert(same_but_case(word[i], other[i]));
            }
        }
        if crate::receiver_pacing::same_word(other, lower) {
            assert forall|i: int| 0 <= i < lower.len() implies crate::receiver_pacing::same_letter(
                #[trigger] word[i],
                lower[i],
            ) by {
                assert(crate::receiver_pacing::same_letter(other[i], lower[i]));
                assert(same_but_case(word[i], other[i]));
            }
        }
    }
    assert(crate::receiver_pacing::same_word(word, "true"@)
        == crate::receiver_pacing::same_word(other, "true"@));
    assert(crate::receiver_pacing::same_word(word, "yes"@) == crate::receiver_pacing::same_word(
        other,
        "yes"@,
    ));
    assert(crate::receiver_pacing::same_word(word, "on"@) == crate::receiver_pacing::same_word(
        other,
        "on"@,
    ));
}

} // verus!
