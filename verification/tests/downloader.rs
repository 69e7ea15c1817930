use usenet_dl::downloader::UsenetDownloader;

#[test]
fn test_extract_job_name() {
    assert_eq!(UsenetDownloader::extract_job_name("movie.nzb"), "movie");
    assert_eq!(UsenetDownloader::extract_job_name("movie"), "movie");
    assert_eq!(
        UsenetDownloader::extract_job_name("My.Movie.2024.1080p.nzb"),
        "My.Movie.2024.1080p"
    );
    assert_eq!(UsenetDownloader::extract_job_name(""), "");
    assert_eq!(UsenetDownloader::extract_job_name(".nzb"), "");
}

#[test]
fn job_name_keeps_other_endings() {
    assert_eq!(UsenetDownloader::extract_job_name("movie.nzb.txt"), "movie.nzb.txt");
    assert_eq!(UsenetDownloader::extract_job_name("nzb"), "nzb");
}
