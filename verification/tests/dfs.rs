use kachina::challenge::solve_dfs2_challenge;
use kachina::dfs::{challenge_sid, chunk_url, metadata_url, range_header, range_query};

#[test]
fn request_urls() {
    assert_eq!(range_query("https://d/x", Some("0-9")), "https://d/x?range=0-9");
    assert_eq!(range_query("https://d/x", None), "https://d/x?");
    assert_eq!(metadata_url("https://d/a?k=1"), "https://d/a?k=1&with_metadata=1");
    assert_eq!(metadata_url("https://d/a"), "https://d/a?with_metadata=1");
    assert_eq!(chunk_url("https://d/s", "1-2"), "https://d/s?range=1-2");
    assert_eq!(range_header(0, 0), None);
    assert_eq!(range_header(10, 5), Some("bytes=10-14".to_string()));
    assert_eq!(range_header(7, 0), Some("bytes=7-6".to_string()));
}

#[test]
fn md5_challenge_is_solved() {
    assert_eq!(
        solve_dfs2_challenge("md5", "9db7e732df3a0bbced98cbff067ddab7/abc"),
        Ok("abc3f".to_string())
    );
    assert_eq!(
        solve_dfs2_challenge("md5", "00000000000000000000000000000000/abc"),
        Err("Failed to solve MD5 challenge".to_string())
    );
    assert_eq!(solve_dfs2_challenge("md5", "nohalves"), Err("Invalid challenge data format".to_string()));
    assert_eq!(solve_dfs2_challenge("md5", "a/b/c"), Err("Invalid challenge data format".to_string()));
    assert_eq!(
        solve_dfs2_challenge("web", "x"),
        Err("Web challenges must be handled by the frontend".to_string())
    );
    assert_eq!(solve_dfs2_challenge("rsa", "x"), Err("Unsupported challenge type: rsa".to_string()));
}

#[test]
fn sha256_challenge_is_solved() {
    assert_eq!(
        solve_dfs2_challenge(
            "sha256",
            "19170236e6551fdd445e681c81ed1464c49d0ec3d0e6367d789bc05a97572949/xy"
        ),
        Ok("xy7".to_string())
    );
}

#[test]
fn download_challenge_sid() {
    assert_eq!(
        challenge_sid("https://d/x?range=1-2", "9db7e732df3a0bbced98cbff067ddab7/abc"),
        Ok("https://d/x?range=1-2&sid=abc3f".to_string())
    );
    assert_eq!(challenge_sid("u?", "bad"), Err("Invalid challenge".to_string()));
    assert_eq!(
        challenge_sid("u?", "00000000000000000000000000000000/abc"),
        Err("Failed to solve challenge".to_string())
    );
}
