use num_bigint::BigUint;
use zkp_auth::random::random_string;
use zkp_auth::{gen_random_number_below, number_from_hex, ZKP};

#[test]
fn test_simple_example() {
    let g = BigUint::from(4u32);
    let h = BigUint::from(9u32);
    let p = BigUint::from(23u32);
    let q = BigUint::from(11u32);
    let zkp = ZKP { g: g.clone(), h: h.clone(), p: p.clone(), q: q.clone() };

    let x = BigUint::from(6u32);
    let k = BigUint::from(7u32);

    let c = BigUint::from(4u32);

    let y1 = g.modpow(&x, &p);
    let y2 = h.modpow(&x, &p);

    assert_eq!(y1, BigUint::from(2u32));
    assert_eq!(y2, BigUint::from(3u32));

    let r1 = g.modpow(&k, &p);
    let r2 = h.modpow(&k, &p);

    assert_eq!(r1, BigUint::from(8u32));
    assert_eq!(r2, BigUint::from(4u32));

    let s = zkp.solve(&k, &c, &x);
    assert_eq!(s, BigUint::from(5u32));

    let result = zkp.verify(&r1, &r2, &y1, &y2, &c, &s);
    assert!(result);

    let wrong_x = BigUint::from(15u32);
    let wrong_s = zkp.solve(&k, &c, &wrong_x);

    let result_wrong = zkp.verify(&r1, &r2, &y1, &y2, &c, &wrong_s);
    assert!(!result_wrong);
}

#[test]
fn test_2048_bits_prime() {
    let p = hex::decode("AD107E1E9123A9D0D660FAA79559C51FA20D64E5683B9FD1B54B1597B61D0A75E6FA141DF95A56DBAF9A3C407BA1DF15EB3D688A309C180E1DE6B85A1274A0A66D3F8152AD6AC2129037C9EDEFDA4DF8D91E8FEF55B7394B7AD5B7D0B6C12207C9F98D11ED34DBF6C6BA0B2C8BBC27BE6A00E0A0B9C49708B3BF8A317091883681286130BC8985DB1602E714415D9330278273C7DE31EFDC7310F7121FD5A07415987D9ADC0A486DCDF93ACC44328387315D75E198C641A480CD86A1B9E587E8BE60E69CC928B2B9C52172E413042E9B23F10B0E16E79763C9B53DCF4BA80A29E3FB73C16B8E75B97EF363E2FFA31F71CF9DE5384E71B81C0AC4DFFE0C10E64F").unwrap();
    let p = BigUint::from_bytes_be(&p);
    let q = hex::decode("801C0D34C58D93FE997177101F80535A4738CEBCBF389A99B36371EB").unwrap();
    let q = BigUint::from_bytes_be(&q);
    let g = hex::decode("AC4032EF4F2D9AE39DF30B5C8FFDAC506CDEBE7B89998CAF74866A08CFE4FFE3A6824A4E10B9A6F0DD921F01A70C4AFAAB739D7700C29F52C57DB17C620A8652BE5E9001A8D66AD7C17669101999024AF4D027275AC1348BB8A762D0521BC98AE247150422EA1ED409939D54DA7460CDB5F6C6B250717CBEF180EB34118E98D119529A45D6F834566E3025E316A330EFBB77A86F0C1AB15B051AE3D428C8F8ACB70A8137150B8EEB10E183EDD19963DDD9E263E4770589EF6AA21E7F5F2FF381B539CCE3409D13CD566AFBB48D6C019181E1BCFE94B30269EDFE72FE9B6AA4BD7B5A0F1C71CFFF4C19C418E1F6EC017981BC087F2A7065B384B890D3191F2BFA").unwrap();
    let g = BigUint::from_bytes_be(&g);

    let h = g.modpow(&gen_random_number_below(&q), &p);

    let zkp = ZKP { g: g.clone(), h: h.clone(), p: p.clone(), q: q.clone() };

    let x = gen_random_number_below(&q);
    let k = gen_random_number_below(&q);

    let c = gen_random_number_below(&q);

    let y1 = g.modpow(&x, &p);
    let y2 = h.modpow(&x, &p);

    let r1 = g.modpow(&k, &p);
    let r2 = h.modpow(&k, &p);

    let s = zkp.solve(&k, &c, &x);
    assert!(s < q);

    let result = zkp.verify(&r1, &r2, &y1, &y2, &c, &s);
    assert!(result);

    let wrong_x = (x + BigUint::from(1u32)) % p;
    let wrong_s = zkp.solve(&k, &c, &wrong_x);
    let wrong_result = zkp.verify(&r1, &r2, &y1, &y2, &c, &wrong_s);
    assert!(!wrong_result);
}

fn small_group() -> ZKP {
    ZKP {
        g: BigUint::from(4u32),
        h: BigUint::from(9u32),
        p: BigUint::from(23u32),
        q: BigUint::from(11u32),
    }
}

#[test]
fn commit_gives_both_powers() {
    let zkp = small_group();
    let (y1, y2) = zkp.commit(&BigUint::from(6u32)).unwrap();
    assert_eq!(y1, BigUint::from(2u32));
    assert_eq!(y2, BigUint::from(3u32));
    let (r1, r2) = zkp.commit(&BigUint::from(7u32)).unwrap();
    assert_eq!(r1, BigUint::from(8u32));
    assert_eq!(r2, BigUint::from(4u32));
    let (z1, z2) = zkp.commit(&BigUint::from(0u32)).unwrap();
    assert_eq!(z1, BigUint::from(1u32));
    assert_eq!(z2, BigUint::from(1u32));
}

#[test]
fn commit_rejects_a_secret_that_is_not_below_the_order() {
    let zkp = small_group();
    assert_eq!(zkp.commit(&BigUint::from(11u32)), Err(zkp_auth::AuthError::MalformedInput));
    assert_eq!(zkp.commit(&BigUint::from(15u32)), Err(zkp_auth::AuthError::MalformedInput));
    assert!(zkp.commit(&BigUint::from(10u32)).is_ok());
}

#[test]
fn solve_normalises_into_the_residues() {
    let zkp = small_group();
    let n = |v: u32| BigUint::from(v);
    // k >= c * x
    assert_eq!(zkp.solve(&n(10), &n(1), &n(3)), n(7));
    assert_eq!(zkp.solve(&n(10), &n(0), &n(3)), n(10));
    assert_eq!(zkp.solve(&n(30), &n(2), &n(4)), n(0));
    // k < c * x
    assert_eq!(zkp.solve(&n(7), &n(4), &n(6)), n(5));
    assert_eq!(zkp.solve(&n(0), &n(1), &n(11)), n(0));
    assert_eq!(zkp.solve(&n(0), &n(1), &n(1)), n(10));
    assert_eq!(zkp.solve(&n(7), &n(4), &n(15)), n(2));
}

#[test]
fn honest_responses_are_accepted_in_the_small_group() {
    let zkp = small_group();
    for x in 0u32..11 {
        for k in 0u32..11 {
            for c in 0u32..11 {
                let (x, k, c) = (BigUint::from(x), BigUint::from(k), BigUint::from(c));
                let (y1, y2) = zkp.commit(&x).unwrap();
                let (r1, r2) = zkp.commit(&k).unwrap();
                let s = zkp.solve(&k, &c, &x);
                assert!(s < zkp.q);
                assert!(zkp.verify(&r1, &r2, &y1, &y2, &c, &s));
            }
        }
    }
}

#[test]
fn responses_from_another_secret_are_rejected_in_the_small_group() {
    let zkp = small_group();
    for x in 0u32..11 {
        for wrong in 0u32..11 {
            for c in 0u32..11 {
                let k = BigUint::from(7u32);
                let (x, wrong, c) = (BigUint::from(x), BigUint::from(wrong), BigUint::from(c));
                let (y1, y2) = zkp.commit(&x).unwrap();
                let (r1, r2) = zkp.commit(&k).unwrap();
                let s = zkp.solve(&k, &c, &wrong);
                let accepted = zkp.verify(&r1, &r2, &y1, &y2, &c, &s);
                let same = x == wrong || c == BigUint::from(0u32);
                assert_eq!(accepted, same);
            }
        }
    }
}

#[test]
fn verify_needs_both_equations() {
    let zkp = small_group();
    let n = |v: u32| BigUint::from(v);
    assert!(zkp.verify(&n(8), &n(4), &n(2), &n(3), &n(4), &n(5)));
    assert!(!zkp.verify(&n(9), &n(4), &n(2), &n(3), &n(4), &n(5)));
    assert!(!zkp.verify(&n(8), &n(5), &n(2), &n(3), &n(4), &n(5)));
    assert!(!zkp.verify(&n(8), &n(4), &n(2), &n(4), &n(4), &n(5)));
    // a commitment that is not reduced modulo p never matches
    assert!(!zkp.verify(&n(8 + 23), &n(4), &n(2), &n(3), &n(4), &n(5)));
}

#[test]
fn default_group_is_what_the_constants_spell() {
    let (g, h, p, q) = zkp_auth::default_cfg();
    let p_text = "B10B8F96A080E01DDE92DE5EAE5D54EC52C99FBCFB06A3C69A6A9DCA52D23B616073E28675A23D189838EF1E2EE652C013ECB4AEA906112324975C3CD49B83BFACCBDD7D90C4BD7098488E9C219A73724EFFD6FAE5644738FAA31A4FF55BCCC0A151AF5F0DC8B4BD45BF37DF365C1A65E68CFDA76D4DA708DF1FB2BC2E4A4371";
    let q_text = "F518AA8781A8DF278ABA4E7D64B7CB9D49462353";
    let g_text = "A4D1CBD5C3FD34126765A442EFB99905F8104DD258AC507FD6406CFF14266D31266FEA1E5C41564B777E690F5504F213160217B4B01B886A5E91547F9E2749F4D7FBD7D3B9A92EE1909D0D2263F80A76A6A24C087A091F531DBF0A0169B6A28AD662A4D18E73AFA32D779D5918D08BC8858F4DCEF97C2A24855E6EEB22B3B2E5";
    assert_eq!(p, BigUint::parse_bytes(p_text.as_bytes(), 16).unwrap());
    assert_eq!(q, BigUint::parse_bytes(q_text.as_bytes(), 16).unwrap());
    assert_eq!(g, BigUint::parse_bytes(g_text.as_bytes(), 16).unwrap());
    assert_eq!(zkp_auth::params::P_HEX, p_text);
    assert_eq!(zkp_auth::params::Q_HEX, q_text);
    assert_eq!(zkp_auth::params::G_HEX, g_text);
    assert_eq!(h, g.modpow(&BigUint::from(85u32), &p));
    let one = BigUint::from(1u32);
    assert_eq!(g.modpow(&q, &p), one);
    assert_eq!(h.modpow(&q, &p), one);
    assert_eq!((&p - &one) % &q, BigUint::from(0u32));
}

#[test]
fn hexadecimal_text_is_read_as_a_number() {
    assert_eq!(number_from_hex(""), Ok(BigUint::from(0u32)));
    assert_eq!(number_from_hex("ff"), Ok(BigUint::from(255u32)));
    assert_eq!(number_from_hex("0100"), Ok(BigUint::from(256u32)));
    assert_eq!(number_from_hex("aBcD"), Ok(BigUint::from(0xabcdu32)));
    assert_eq!(number_from_hex("123"), Err(zkp_auth::AuthError::MalformedInput));
    assert_eq!(number_from_hex("0g"), Err(zkp_auth::AuthError::MalformedInput));
    assert_eq!(number_from_hex("é"), Err(zkp_auth::AuthError::MalformedInput));
}

#[test]
fn random_numbers_stay_below_the_bound() {
    let bound = BigUint::from(5u32);
    for _ in 0..200 {
        assert!(gen_random_number_below(&bound) < bound);
    }
    assert_eq!(gen_random_number_below(&BigUint::from(1u32)), BigUint::from(0u32));
}

#[test]
fn random_strings_are_letters_and_digits() {
    assert_eq!(random_string(0), "");
    let text = random_string(32);
    assert_eq!(text.len(), 32);
    assert!(text.chars().all(|c| c.is_ascii_alphanumeric()));
    assert_ne!(random_string(32), random_string(32));
}
