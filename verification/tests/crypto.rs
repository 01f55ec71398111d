use search_compactor::crypto::{
    read_rsa_public_key, Algorithm, CryptoError, CryptoOps, DeriveKeyArg, KeyData, KeyType,
    digest_length, MAX_RANDOM_BYTES,
};
use search_compactor::crypto_primitives::{CryptoHash, CryptoNamedCurve};

const MESSAGE: &[u8] = b"the quick brown fox";

const RSA_PRIVATE: [u8; 609] = [48, 130, 2, 93, 2, 1, 0, 2, 129, 129, 0, 211, 21, 224, 114, 195, 21, 81, 76, 9, 145, 121, 72, 204, 165, 177, 194, 253, 81, 206, 249, 242, 145, 111, 19, 239, 216, 170, 207, 233, 216, 85, 196, 20, 167, 176, 143, 129, 119, 148, 255, 69, 112, 176, 118, 216, 160, 213, 193, 123, 139, 221, 56, 76, 135, 46, 215, 96, 195, 18, 46, 182, 52, 185, 240, 138, 29, 34, 232, 57, 123, 61, 183, 47, 103, 12, 132, 234, 140, 83, 236, 91, 97, 102, 68, 2, 82, 24, 129, 72, 58, 188, 142, 181, 57, 18, 64, 223, 247, 37, 76, 178, 1, 224, 9, 111, 12, 123, 245, 174, 16, 243, 30, 219, 88, 99, 117, 40, 132, 86, 36, 197, 188, 48, 128, 244, 27, 188, 235, 2, 3, 1, 0, 1, 2, 129, 128, 70, 66, 131, 224, 239, 26, 75, 99, 25, 212, 56, 32, 137, 45, 165, 203, 151, 114, 1, 136, 164, 186, 207, 212, 61, 3, 75, 103, 197, 24, 99, 3, 207, 52, 57, 202, 170, 119, 89, 58, 214, 172, 57, 176, 117, 78, 163, 151, 177, 61, 206, 182, 140, 146, 122, 126, 234, 16, 68, 31, 20, 58, 220, 160, 159, 39, 20, 92, 128, 80, 147, 255, 151, 89, 46, 121, 60, 93, 155, 92, 128, 163, 195, 75, 1, 100, 231, 232, 34, 22, 125, 83, 81, 130, 230, 73, 50, 194, 203, 112, 84, 225, 202, 206, 129, 188, 147, 63, 89, 146, 249, 202, 2, 239, 182, 181, 126, 15, 112, 18, 190, 227, 194, 129, 218, 32, 35, 209, 2, 65, 0, 239, 81, 253, 162, 165, 238, 161, 246, 137, 126, 77, 235, 215, 182, 150, 218, 96, 98, 248, 137, 110, 79, 225, 240, 6, 209, 129, 38, 252, 100, 128, 62, 22, 231, 231, 227, 43, 0, 23, 236, 175, 107, 143, 223, 211, 90, 99, 201, 37, 239, 198, 241, 158, 12, 18, 162, 36, 19, 24, 70, 125, 101, 115, 197, 2, 65, 0, 225, 204, 29, 21, 211, 253, 8, 23, 235, 234, 33, 164, 48, 102, 16, 226, 109, 135, 176, 84, 186, 140, 161, 125, 102, 34, 217, 82, 72, 114, 166, 170, 19, 88, 137, 186, 43, 167, 222, 7, 230, 87, 228, 81, 58, 12, 150, 213, 128, 39, 225, 207, 94, 1, 37, 95, 3, 177, 147, 38, 195, 148, 136, 239, 2, 65, 0, 137, 101, 0, 1, 117, 212, 7, 166, 27, 143, 168, 186, 162, 176, 79, 240, 245, 111, 60, 146, 226, 2, 248, 138, 173, 207, 111, 159, 107, 61, 99, 166, 193, 205, 200, 2, 82, 120, 142, 67, 178, 254, 68, 174, 82, 143, 205, 67, 249, 4, 172, 169, 160, 123, 251, 226, 156, 101, 94, 5, 114, 14, 97, 165, 2, 65, 0, 166, 170, 56, 213, 193, 209, 197, 69, 146, 247, 16, 185, 214, 151, 159, 226, 226, 34, 3, 191, 166, 170, 227, 16, 98, 113, 90, 163, 231, 161, 232, 239, 36, 180, 119, 132, 153, 112, 160, 236, 135, 211, 92, 77, 176, 97, 86, 124, 100, 202, 11, 93, 58, 239, 241, 155, 190, 104, 54, 75, 168, 149, 92, 181, 2, 64, 3, 243, 209, 1, 44, 36, 136, 142, 243, 89, 255, 101, 203, 148, 254, 157, 32, 57, 31, 185, 68, 24, 100, 176, 165, 55, 204, 97, 231, 190, 26, 176, 200, 218, 65, 53, 131, 132, 29, 117, 94, 154, 10, 139, 95, 101, 179, 227, 216, 134, 111, 161, 3, 41, 81, 192, 24, 116, 155, 215, 99, 169, 96, 30];
const RSA_PUBLIC: [u8; 140] = [48, 129, 137, 2, 129, 129, 0, 211, 21, 224, 114, 195, 21, 81, 76, 9, 145, 121, 72, 204, 165, 177, 194, 253, 81, 206, 249, 242, 145, 111, 19, 239, 216, 170, 207, 233, 216, 85, 196, 20, 167, 176, 143, 129, 119, 148, 255, 69, 112, 176, 118, 216, 160, 213, 193, 123, 139, 221, 56, 76, 135, 46, 215, 96, 195, 18, 46, 182, 52, 185, 240, 138, 29, 34, 232, 57, 123, 61, 183, 47, 103, 12, 132, 234, 140, 83, 236, 91, 97, 102, 68, 2, 82, 24, 129, 72, 58, 188, 142, 181, 57, 18, 64, 223, 247, 37, 76, 178, 1, 224, 9, 111, 12, 123, 245, 174, 16, 243, 30, 219, 88, 99, 117, 40, 132, 86, 36, 197, 188, 48, 128, 244, 27, 188, 235, 2, 3, 1, 0, 1];
const SIG_PKCS1V15_SHA256: [u8; 128] = [0, 106, 226, 11, 142, 237, 42, 184, 133, 233, 130, 175, 120, 193, 194, 38, 250, 141, 255, 156, 21, 22, 24, 239, 93, 22, 232, 254, 40, 238, 104, 209, 50, 88, 107, 195, 177, 224, 117, 50, 59, 200, 194, 134, 24, 206, 231, 159, 180, 209, 29, 139, 18, 95, 134, 244, 215, 92, 244, 126, 120, 232, 169, 16, 20, 82, 134, 50, 128, 107, 197, 24, 237, 6, 94, 110, 41, 80, 120, 108, 133, 79, 188, 74, 103, 59, 9, 153, 70, 5, 126, 67, 225, 235, 221, 241, 57, 107, 204, 19, 8, 40, 243, 53, 190, 154, 21, 145, 178, 148, 161, 49, 130, 63, 143, 178, 242, 224, 227, 62, 178, 252, 217, 119, 0, 198, 86, 47];
const SIG_PKCS1V15_SHA1: [u8; 128] = [137, 26, 18, 246, 158, 91, 19, 122, 194, 209, 189, 162, 158, 121, 123, 108, 6, 49, 52, 1, 155, 193, 150, 61, 239, 143, 83, 118, 207, 129, 15, 39, 150, 102, 142, 38, 74, 150, 189, 57, 237, 252, 21, 137, 1, 166, 126, 17, 92, 130, 147, 82, 215, 66, 29, 182, 18, 4, 158, 173, 6, 27, 61, 92, 114, 119, 147, 193, 83, 160, 29, 51, 159, 92, 218, 158, 238, 182, 149, 92, 113, 190, 38, 242, 134, 100, 143, 111, 31, 65, 110, 136, 128, 172, 125, 22, 195, 232, 39, 75, 167, 167, 146, 220, 106, 147, 34, 189, 176, 209, 254, 182, 178, 226, 166, 54, 105, 38, 166, 250, 198, 70, 192, 80, 41, 174, 145, 56];
const SIG_PSS_SHA256: [u8; 128] = [124, 210, 87, 191, 84, 95, 223, 241, 26, 38, 190, 90, 44, 181, 210, 99, 31, 83, 63, 218, 203, 238, 98, 106, 113, 184, 5, 244, 208, 120, 93, 42, 184, 52, 220, 51, 86, 191, 121, 114, 18, 31, 10, 32, 35, 1, 6, 5, 194, 135, 42, 157, 3, 26, 106, 80, 88, 50, 132, 122, 15, 24, 138, 56, 102, 117, 230, 227, 213, 203, 255, 115, 156, 102, 122, 232, 60, 175, 134, 220, 214, 230, 156, 249, 39, 244, 104, 20, 185, 43, 18, 158, 46, 170, 65, 231, 67, 61, 229, 121, 53, 236, 211, 116, 158, 226, 17, 118, 240, 233, 5, 33, 163, 216, 7, 87, 67, 111, 30, 203, 85, 41, 245, 158, 138, 93, 30, 50];
const EC_PUBLIC: [u8; 65] = [4, 210, 37, 2, 94, 37, 111, 27, 57, 140, 207, 30, 142, 55, 225, 78, 68, 108, 187, 66, 11, 177, 141, 63, 10, 171, 46, 84, 79, 154, 89, 40, 201, 105, 124, 30, 234, 226, 155, 114, 6, 1, 242, 71, 146, 109, 218, 176, 234, 26, 84, 10, 248, 126, 37, 77, 227, 215, 20, 146, 122, 74, 254, 69, 244];
const EC_SIGNATURE: [u8; 64] = [81, 209, 48, 16, 23, 62, 82, 187, 117, 139, 169, 119, 236, 32, 173, 208, 112, 44, 127, 241, 170, 146, 198, 150, 228, 252, 60, 181, 82, 144, 182, 95, 8, 181, 9, 129, 59, 152, 212, 43, 99, 58, 60, 214, 215, 113, 124, 224, 152, 121, 149, 109, 253, 10, 240, 117, 58, 211, 211, 4, 153, 115, 213, 77];
const SHA256_ABC: [u8; 32] = [186, 120, 22, 191, 143, 1, 207, 234, 65, 65, 64, 222, 93, 174, 34, 35, 176, 3, 97, 163, 150, 23, 122, 156, 180, 16, 255, 97, 242, 0, 21, 173];
const SHA1_ABC: [u8; 20] = [169, 153, 62, 54, 71, 6, 129, 106, 186, 62, 37, 113, 120, 80, 194, 108, 156, 208, 216, 157];
const SHA384_ABC: [u8; 48] = [203, 0, 117, 63, 69, 163, 94, 139, 181, 160, 61, 105, 154, 198, 80, 7, 39, 44, 50, 171, 14, 222, 209, 99, 26, 139, 96, 90, 67, 255, 91, 237, 128, 134, 7, 43, 161, 231, 204, 35, 88, 186, 236, 161, 52, 200, 37, 167];
const SHA512_ABC: [u8; 64] = [221, 175, 53, 161, 147, 97, 122, 186, 204, 65, 115, 73, 174, 32, 65, 49, 18, 230, 250, 78, 137, 169, 126, 162, 10, 158, 238, 230, 75, 85, 211, 154, 33, 146, 153, 42, 39, 79, 193, 168, 54, 186, 60, 35, 163, 254, 235, 189, 69, 77, 68, 35, 100, 60, 232, 14, 42, 154, 201, 79, 165, 76, 164, 159];
const HMAC_SHA256: [u8; 32] = [247, 188, 131, 244, 48, 83, 132, 36, 177, 50, 152, 230, 170, 111, 177, 67, 239, 77, 89, 161, 73, 70, 23, 89, 151, 71, 157, 188, 45, 26, 60, 216];
const PBKDF2_SHA1: [u8; 20] = [234, 108, 1, 77, 199, 45, 111, 140, 205, 30, 217, 42, 206, 29, 65, 240, 216, 222, 137, 87];
const PBKDF2_SHA256: [u8; 32] = [18, 15, 182, 207, 252, 248, 179, 44, 67, 231, 34, 82, 86, 196, 248, 55, 168, 101, 72, 201, 44, 204, 53, 72, 8, 5, 152, 124, 183, 11, 225, 123];
const BIG_RSA_PRIVATE: [u8; 2636] = [48, 130, 10, 72, 2, 1, 0, 2, 130, 2, 65, 0, 185, 187, 135, 1, 28, 100, 171, 21, 104, 152, 131, 233, 61, 61, 179, 68, 90, 201, 242, 204, 149, 163, 206, 87, 163, 209, 143, 198, 145, 161, 27, 127, 126, 86, 100, 181, 149, 45, 137, 215, 108, 99, 70, 189, 48, 166, 160, 70, 222, 205, 139, 35, 199, 72, 149, 159, 154, 3, 15, 50, 57, 27, 249, 143, 157, 72, 12, 122, 228, 108, 60, 179, 62, 118, 9, 221, 199, 32, 7, 203, 138, 88, 33, 66, 137, 195, 191, 4, 49, 58, 123, 218, 10, 140, 115, 0, 3, 164, 76, 21, 137, 134, 245, 214, 184, 138, 192, 225, 4, 67, 147, 86, 231, 84, 18, 19, 100, 126, 111, 4, 197, 169, 113, 188, 61, 56, 212, 36, 123, 176, 217, 120, 5, 39, 145, 199, 73, 157, 66, 52, 212, 207, 99, 0, 193, 146, 101, 85, 244, 228, 18, 41, 19, 137, 169, 98, 182, 72, 134, 216, 176, 103, 157, 234, 47, 144, 148, 26, 48, 146, 234, 115, 5, 144, 223, 32, 54, 34, 0, 58, 145, 57, 211, 250, 13, 29, 185, 153, 138, 133, 143, 39, 127, 109, 162, 7, 75, 208, 120, 23, 22, 188, 65, 248, 26, 54, 146, 201, 123, 27, 147, 15, 82, 78, 37, 68, 223, 233, 143, 87, 44, 118, 147, 141, 244, 100, 200, 164, 51, 76, 23, 44, 176, 71, 155, 0, 40, 146, 87, 119, 225, 41, 243, 228, 163, 129, 194, 158, 244, 125, 191, 180, 53, 230, 170, 183, 55, 66, 82, 172, 178, 17, 27, 24, 66, 22, 212, 103, 176, 36, 30, 6, 105, 172, 93, 25, 81, 133, 48, 24, 207, 147, 196, 78, 223, 206, 83, 243, 106, 149, 8, 246, 26, 226, 227, 74, 224, 115, 3, 183, 144, 180, 218, 120, 251, 160, 188, 251, 136, 119, 227, 254, 178, 194, 226, 63, 247, 79, 4, 174, 47, 247, 208, 204, 34, 89, 179, 222, 178, 71, 147, 30, 151, 74, 167, 87, 219, 92, 167, 223, 173, 109, 176, 235, 171, 103, 56, 68, 226, 34, 133, 147, 93, 98, 156, 221, 120, 253, 79, 184, 79, 245, 151, 242, 243, 222, 207, 64, 7, 168, 250, 226, 7, 100, 110, 188, 254, 220, 79, 157, 160, 148, 161, 154, 98, 97, 3, 19, 108, 42, 13, 58, 168, 127, 130, 181, 146, 159, 112, 246, 121, 12, 137, 208, 10, 64, 152, 10, 161, 60, 142, 202, 237, 197, 31, 219, 136, 118, 167, 213, 48, 254, 219, 47, 11, 183, 41, 140, 142, 118, 212, 248, 232, 99, 36, 179, 153, 21, 118, 2, 56, 9, 42, 111, 243, 254, 36, 23, 16, 203, 98, 220, 120, 87, 149, 243, 153, 240, 104, 205, 1, 201, 12, 154, 173, 56, 10, 113, 157, 60, 41, 128, 236, 50, 218, 201, 129, 132, 241, 111, 229, 116, 198, 153, 167, 227, 73, 78, 189, 93, 3, 145, 236, 24, 115, 42, 187, 207, 98, 68, 199, 171, 32, 198, 155, 133, 239, 190, 12, 54, 238, 22, 91, 195, 16, 133, 26, 242, 130, 164, 42, 242, 51, 251, 108, 70, 36, 119, 191, 116, 131, 117, 193, 176, 228, 165, 209, 82, 187, 152, 215, 34, 61, 117, 124, 172, 60, 116, 133, 100, 78, 139, 74, 178, 33, 19, 138, 133, 188, 68, 227, 217, 188, 124, 146, 107, 50, 35, 61, 239, 34, 97, 155, 80, 162, 171, 2, 3, 1, 0, 1, 2, 130, 2, 64, 4, 20, 186, 194, 171, 125, 10, 197, 77, 167, 12, 62, 243, 185, 135, 86, 217, 39, 214, 205, 231, 251, 209, 108, 219, 140, 159, 60, 29, 183, 12, 131, 160, 163, 5, 83, 120, 19, 168, 19, 179, 173, 250, 191, 237, 113, 187, 211, 210, 209, 113, 93, 55, 227, 192, 101, 225, 92, 111, 217, 10, 168, 50, 179, 149, 33, 32, 37, 19, 31, 205, 181, 162, 137, 181, 109, 202, 18, 74, 25, 142, 208, 160, 234, 117, 92, 119, 181, 255, 222, 233, 25, 193, 97, 148, 165, 75, 111, 48, 188, 200, 104, 206, 190, 9, 16, 3, 108, 238, 75, 13, 209, 187, 3, 125, 226, 47, 51, 23, 253, 98, 218, 118, 69, 76, 147, 19, 22, 58, 33, 136, 165, 186, 119, 68, 28, 188, 225, 87, 179, 17, 121, 253, 18, 231, 45, 240, 76, 19, 53, 111, 176, 183, 93, 46, 251, 156, 69, 187, 176, 199, 47, 127, 168, 197, 162, 199, 158, 75, 178, 238, 179, 216, 75, 118, 155, 158, 148, 224, 172, 104, 196, 124, 131, 226, 5, 229, 46, 26, 125, 20, 200, 41, 100, 159, 74, 201, 191, 170, 227, 214, 252, 11, 247, 7, 156, 107, 93, 65, 247, 57, 35, 253, 10, 250, 134, 168, 228, 216, 225, 113, 120, 169, 133, 84, 249, 97, 239, 57, 177, 82, 81, 9, 14, 137, 185, 87, 42, 224, 1, 34, 81, 105, 170, 124, 109, 61, 121, 128, 165, 194, 176, 146, 254, 158, 129, 168, 21, 44, 251, 222, 109, 193, 202, 166, 169, 25, 193, 173, 125, 29, 171, 198, 102, 163, 37, 11, 69, 129, 233, 9, 166, 149, 137, 166, 33, 66, 118, 237, 43, 20, 210, 123, 117, 165, 58, 36, 110, 86, 55, 171, 221, 116, 202, 104, 37, 197, 51, 243, 145, 123, 16, 26, 155, 122, 78, 70, 202, 10, 45, 243, 80, 202, 93, 20, 29, 142, 190, 74, 152, 219, 97, 238, 15, 77, 197, 219, 185, 231, 18, 150, 13, 85, 1, 8, 238, 243, 70, 103, 214, 126, 249, 119, 82, 55, 122, 119, 118, 205, 59, 195, 179, 216, 126, 229, 40, 75, 159, 222, 103, 165, 5, 179, 85, 32, 106, 196, 109, 183, 242, 11, 223, 167, 214, 218, 14, 34, 226, 101, 103, 255, 107, 112, 230, 40, 175, 123, 74, 167, 146, 13, 36, 221, 34, 52, 134, 13, 226, 145, 207, 138, 129, 124, 79, 227, 144, 145, 233, 174, 75, 122, 48, 172, 99, 44, 223, 137, 136, 109, 216, 121, 181, 197, 16, 245, 22, 211, 225, 184, 238, 187, 110, 49, 83, 142, 182, 137, 88, 2, 139, 143, 204, 137, 87, 245, 254, 55, 236, 121, 24, 173, 20, 220, 188, 55, 111, 34, 107, 14, 47, 238, 45, 41, 6, 0, 211, 15, 61, 202, 7, 90, 4, 182, 217, 119, 161, 153, 133, 192, 206, 113, 102, 231, 114, 83, 225, 1, 149, 224, 81, 83, 76, 161, 3, 66, 192, 204, 17, 69, 136, 11, 121, 212, 116, 186, 207, 225, 51, 242, 38, 244, 46, 4, 197, 115, 255, 178, 22, 252, 185, 134, 61, 200, 94, 245, 88, 111, 230, 80, 23, 9, 98, 238, 100, 38, 150, 45, 105, 105, 237, 76, 155, 192, 106, 21, 114, 121, 198, 210, 12, 104, 126, 152, 133, 20, 196, 252, 143, 128, 163, 143, 81, 16, 5, 110, 1, 2, 130, 1, 33, 0, 222, 19, 174, 136, 34, 101, 219, 144, 97, 168, 137, 238, 21, 72, 116, 82, 65, 74, 247, 71, 100, 146, 165, 88, 239, 35, 93, 70, 63, 107, 190, 162, 80, 31, 60, 120, 157, 206, 211, 215, 134, 123, 156, 147, 30, 69, 185, 86, 206, 170, 247, 218, 52, 171, 133, 161, 3, 198, 54, 92, 10, 79, 255, 165, 184, 80, 142, 167, 200, 223, 221, 167, 205, 24, 61, 61, 126, 111, 90, 80, 117, 164, 115, 198, 57, 20, 27, 116, 230, 231, 22, 125, 6, 237, 63, 9, 145, 118, 113, 52, 20, 68, 4, 106, 190, 103, 163, 141, 137, 118, 253, 33, 236, 87, 5, 61, 201, 213, 144, 75, 191, 43, 125, 66, 186, 70, 55, 24, 175, 153, 129, 110, 248, 137, 31, 15, 13, 46, 14, 83, 198, 39, 109, 165, 82, 229, 77, 220, 36, 239, 35, 152, 95, 140, 129, 180, 129, 0, 234, 57, 253, 172, 220, 252, 222, 23, 109, 252, 54, 232, 2, 85, 71, 142, 180, 2, 35, 3, 35, 209, 121, 40, 67, 238, 183, 21, 118, 231, 82, 76, 155, 60, 146, 237, 52, 176, 86, 186, 86, 125, 205, 166, 74, 78, 34, 169, 6, 119, 42, 19, 38, 101, 179, 50, 30, 154, 162, 249, 64, 82, 130, 231, 114, 229, 184, 253, 202, 191, 178, 122, 28, 100, 189, 28, 139, 17, 131, 155, 247, 10, 104, 131, 244, 180, 101, 190, 114, 143, 191, 35, 83, 165, 16, 250, 165, 81, 24, 98, 102, 177, 67, 93, 99, 192, 1, 178, 51, 237, 68, 70, 134, 109, 255, 132, 155, 55, 124, 222, 244, 142, 76, 14, 179, 157, 163, 128, 23, 25, 2, 130, 1, 33, 0, 214, 26, 153, 112, 195, 215, 238, 42, 142, 89, 166, 58, 227, 193, 157, 164, 109, 128, 232, 244, 0, 203, 227, 87, 244, 195, 159, 175, 145, 110, 122, 171, 155, 205, 157, 61, 8, 87, 42, 184, 181, 231, 88, 46, 197, 153, 148, 232, 154, 245, 116, 233, 137, 214, 245, 137, 153, 104, 202, 233, 182, 61, 102, 165, 106, 26, 205, 96, 138, 233, 105, 19, 48, 113, 240, 250, 36, 131, 58, 152, 116, 60, 206, 177, 19, 128, 3, 167, 241, 120, 182, 83, 31, 10, 71, 207, 14, 155, 120, 45, 131, 143, 215, 216, 100, 30, 179, 124, 169, 125, 70, 231, 159, 100, 11, 217, 17, 112, 74, 122, 171, 165, 162, 106, 139, 109, 221, 77, 64, 73, 51, 180, 91, 71, 13, 237, 254, 13, 168, 7, 29, 123, 146, 78, 28, 212, 54, 43, 49, 53, 28, 73, 199, 247, 139, 250, 5, 27, 21, 36, 234, 169, 123, 230, 130, 178, 13, 68, 142, 164, 169, 209, 166, 193, 34, 92, 16, 184, 214, 151, 127, 253, 201, 164, 214, 175, 140, 240, 101, 29, 22, 181, 114, 132, 146, 60, 19, 117, 139, 27, 230, 111, 56, 80, 111, 157, 196, 73, 90, 119, 160, 253, 185, 208, 107, 111, 145, 109, 155, 36, 36, 25, 65, 247, 194, 80, 199, 203, 206, 48, 177, 28, 43, 135, 68, 189, 174, 220, 75, 135, 38, 126, 64, 168, 1, 129, 18, 231, 160, 161, 47, 136, 216, 75, 48, 123, 175, 64, 151, 65, 244, 8, 153, 138, 100, 104, 32, 246, 14, 140, 192, 164, 169, 124, 197, 152, 14, 17, 177, 103, 238, 124, 226, 144, 226, 191, 212, 99, 2, 130, 1, 32, 62, 79, 253, 119, 251, 86, 227, 77, 214, 233, 40, 146, 162, 108, 43, 31, 109, 108, 176, 135, 218, 195, 127, 27, 190, 54, 9, 21, 13, 244, 152, 144, 8, 181, 75, 13, 121, 18, 48, 196, 215, 218, 85, 107, 190, 97, 200, 8, 128, 130, 222, 122, 222, 174, 134, 23, 80, 236, 204, 17, 245, 94, 207, 23, 219, 232, 214, 174, 99, 161, 213, 27, 33, 100, 60, 194, 197, 120, 79, 58, 38, 88, 87, 151, 246, 42, 27, 46, 41, 32, 12, 98, 86, 144, 57, 80, 224, 252, 255, 244, 161, 255, 23, 210, 47, 204, 250, 202, 91, 25, 5, 28, 0, 169, 198, 49, 185, 49, 112, 132, 160, 134, 126, 102, 59, 200, 57, 235, 118, 82, 55, 76, 64, 246, 144, 189, 115, 112, 73, 218, 221, 205, 240, 105, 36, 34, 109, 63, 105, 41, 164, 174, 59, 153, 60, 71, 190, 174, 216, 10, 31, 144, 226, 141, 29, 112, 43, 143, 74, 132, 189, 42, 218, 162, 67, 6, 26, 118, 230, 20, 255, 206, 249, 136, 192, 220, 135, 249, 142, 81, 42, 121, 203, 172, 61, 77, 129, 120, 85, 142, 133, 38, 180, 208, 201, 206, 237, 158, 128, 50, 209, 98, 85, 238, 169, 65, 176, 155, 9, 158, 93, 86, 190, 25, 145, 87, 189, 13, 30, 242, 62, 135, 81, 188, 241, 148, 159, 126, 34, 202, 75, 219, 66, 205, 95, 131, 25, 184, 21, 228, 190, 178, 161, 90, 3, 11, 7, 49, 141, 41, 14, 2, 229, 91, 89, 222, 123, 205, 134, 139, 215, 106, 131, 248, 220, 104, 172, 100, 14, 240, 226, 140, 121, 127, 177, 1, 222, 249, 2, 130, 1, 33, 0, 155, 120, 35, 53, 156, 48, 159, 20, 45, 219, 241, 118, 79, 206, 87, 79, 127, 232, 156, 192, 26, 23, 243, 148, 249, 250, 87, 105, 96, 188, 141, 189, 49, 92, 196, 49, 254, 109, 117, 107, 61, 67, 169, 104, 5, 58, 185, 195, 146, 74, 108, 195, 236, 192, 183, 249, 91, 249, 153, 102, 206, 91, 149, 190, 197, 230, 130, 125, 249, 64, 246, 120, 229, 179, 199, 93, 140, 199, 241, 243, 164, 108, 71, 86, 148, 39, 96, 0, 66, 186, 250, 2, 47, 199, 2, 79, 219, 118, 143, 116, 213, 84, 205, 82, 167, 153, 23, 146, 141, 108, 151, 225, 55, 127, 169, 142, 205, 55, 242, 13, 83, 184, 233, 208, 94, 64, 191, 243, 9, 156, 94, 60, 56, 15, 199, 144, 170, 235, 117, 184, 252, 242, 175, 81, 163, 99, 129, 150, 41, 156, 60, 87, 99, 42, 97, 109, 130, 233, 160, 151, 247, 2, 109, 34, 252, 130, 152, 89, 209, 14, 198, 245, 163, 22, 25, 130, 42, 238, 93, 125, 19, 134, 209, 54, 174, 98, 57, 128, 146, 155, 229, 210, 138, 62, 180, 5, 133, 199, 211, 228, 197, 150, 187, 152, 197, 4, 21, 245, 130, 8, 222, 81, 127, 237, 85, 38, 101, 190, 230, 105, 255, 0, 140, 67, 129, 201, 176, 219, 80, 117, 81, 22, 120, 145, 56, 28, 88, 238, 68, 181, 246, 0, 181, 168, 137, 183, 21, 104, 54, 222, 244, 170, 117, 13, 92, 62, 100, 11, 14, 10, 233, 78, 153, 87, 194, 3, 78, 243, 253, 170, 189, 116, 148, 82, 51, 21, 112, 25, 238, 237, 222, 98, 183, 14, 168, 104, 205, 171, 2, 130, 1, 32, 57, 59, 232, 251, 150, 41, 16, 52, 33, 54, 90, 188, 217, 42, 137, 254, 169, 148, 108, 201, 202, 231, 52, 87, 9, 7, 102, 162, 113, 241, 81, 105, 35, 225, 20, 74, 224, 131, 210, 108, 153, 106, 218, 129, 159, 194, 117, 68, 216, 45, 242, 93, 140, 206, 72, 13, 188, 95, 245, 194, 21, 19, 190, 157, 218, 190, 102, 89, 43, 197, 59, 36, 5, 16, 246, 253, 163, 150, 151, 105, 68, 14, 62, 86, 71, 219, 180, 153, 226, 91, 181, 133, 92, 84, 253, 199, 6, 6, 195, 20, 155, 211, 23, 91, 4, 47, 80, 114, 46, 67, 120, 157, 112, 161, 83, 39, 224, 132, 171, 180, 162, 48, 112, 236, 117, 158, 88, 182, 200, 193, 157, 195, 101, 213, 23, 193, 91, 161, 243, 32, 7, 152, 243, 11, 25, 247, 249, 156, 183, 158, 119, 152, 223, 10, 6, 29, 50, 150, 204, 83, 184, 183, 218, 254, 72, 188, 1, 10, 90, 90, 142, 187, 104, 186, 169, 98, 109, 27, 133, 105, 110, 195, 122, 63, 250, 19, 117, 5, 223, 86, 145, 135, 5, 44, 6, 60, 207, 36, 18, 147, 234, 175, 255, 72, 250, 215, 165, 93, 73, 0, 15, 157, 112, 111, 251, 162, 243, 51, 221, 172, 206, 21, 135, 20, 238, 186, 167, 138, 246, 165, 220, 213, 79, 246, 68, 143, 146, 22, 111, 201, 185, 170, 85, 58, 65, 36, 118, 25, 184, 14, 124, 122, 63, 137, 75, 144, 17, 41, 250, 15, 69, 6, 108, 14, 75, 50, 80, 188, 235, 92, 21, 43, 87, 126, 70, 116, 6, 55, 110, 111, 116, 47, 252, 202, 70, 53, 228, 210];
const BIG_RSA_PUBLIC: [u8; 590] = [48, 130, 2, 74, 2, 130, 2, 65, 0, 185, 187, 135, 1, 28, 100, 171, 21, 104, 152, 131, 233, 61, 61, 179, 68, 90, 201, 242, 204, 149, 163, 206, 87, 163, 209, 143, 198, 145, 161, 27, 127, 126, 86, 100, 181, 149, 45, 137, 215, 108, 99, 70, 189, 48, 166, 160, 70, 222, 205, 139, 35, 199, 72, 149, 159, 154, 3, 15, 50, 57, 27, 249, 143, 157, 72, 12, 122, 228, 108, 60, 179, 62, 118, 9, 221, 199, 32, 7, 203, 138, 88, 33, 66, 137, 195, 191, 4, 49, 58, 123, 218, 10, 140, 115, 0, 3, 164, 76, 21, 137, 134, 245, 214, 184, 138, 192, 225, 4, 67, 147, 86, 231, 84, 18, 19, 100, 126, 111, 4, 197, 169, 113, 188, 61, 56, 212, 36, 123, 176, 217, 120, 5, 39, 145, 199, 73, 157, 66, 52, 212, 207, 99, 0, 193, 146, 101, 85, 244, 228, 18, 41, 19, 137, 169, 98, 182, 72, 134, 216, 176, 103, 157, 234, 47, 144, 148, 26, 48, 146, 234, 115, 5, 144, 223, 32, 54, 34, 0, 58, 145, 57, 211, 250, 13, 29, 185, 153, 138, 133, 143, 39, 127, 109, 162, 7, 75, 208, 120, 23, 22, 188, 65, 248, 26, 54, 146, 201, 123, 27, 147, 15, 82, 78, 37, 68, 223, 233, 143, 87, 44, 118, 147, 141, 244, 100, 200, 164, 51, 76, 23, 44, 176, 71, 155, 0, 40, 146, 87, 119, 225, 41, 243, 228, 163, 129, 194, 158, 244, 125, 191, 180, 53, 230, 170, 183, 55, 66, 82, 172, 178, 17, 27, 24, 66, 22, 212, 103, 176, 36, 30, 6, 105, 172, 93, 25, 81, 133, 48, 24, 207, 147, 196, 78, 223, 206, 83, 243, 106, 149, 8, 246, 26, 226, 227, 74, 224, 115, 3, 183, 144, 180, 218, 120, 251, 160, 188, 251, 136, 119, 227, 254, 178, 194, 226, 63, 247, 79, 4, 174, 47, 247, 208, 204, 34, 89, 179, 222, 178, 71, 147, 30, 151, 74, 167, 87, 219, 92, 167, 223, 173, 109, 176, 235, 171, 103, 56, 68, 226, 34, 133, 147, 93, 98, 156, 221, 120, 253, 79, 184, 79, 245, 151, 242, 243, 222, 207, 64, 7, 168, 250, 226, 7, 100, 110, 188, 254, 220, 79, 157, 160, 148, 161, 154, 98, 97, 3, 19, 108, 42, 13, 58, 168, 127, 130, 181, 146, 159, 112, 246, 121, 12, 137, 208, 10, 64, 152, 10, 161, 60, 142, 202, 237, 197, 31, 219, 136, 118, 167, 213, 48, 254, 219, 47, 11, 183, 41, 140, 142, 118, 212, 248, 232, 99, 36, 179, 153, 21, 118, 2, 56, 9, 42, 111, 243, 254, 36, 23, 16, 203, 98, 220, 120, 87, 149, 243, 153, 240, 104, 205, 1, 201, 12, 154, 173, 56, 10, 113, 157, 60, 41, 128, 236, 50, 218, 201, 129, 132, 241, 111, 229, 116, 198, 153, 167, 227, 73, 78, 189, 93, 3, 145, 236, 24, 115, 42, 187, 207, 98, 68, 199, 171, 32, 198, 155, 133, 239, 190, 12, 54, 238, 22, 91, 195, 16, 133, 26, 242, 130, 164, 42, 242, 51, 251, 108, 70, 36, 119, 191, 116, 131, 117, 193, 176, 228, 165, 209, 82, 187, 152, 215, 34, 61, 117, 124, 172, 60, 116, 133, 100, 78, 139, 74, 178, 33, 19, 138, 133, 188, 68, 227, 217, 188, 124, 146, 107, 50, 35, 61, 239, 34, 97, 155, 80, 162, 171, 2, 3, 1, 0, 1];
const BIG_SIG_PKCS1V15_SHA256: [u8; 576] = [160, 129, 184, 129, 22, 134, 229, 31, 123, 183, 224, 52, 42, 163, 211, 56, 42, 191, 232, 151, 176, 148, 38, 103, 66, 48, 1, 143, 84, 113, 82, 160, 36, 2, 117, 219, 83, 114, 59, 131, 206, 25, 233, 162, 187, 60, 49, 172, 94, 213, 251, 158, 24, 254, 142, 242, 13, 36, 204, 24, 225, 70, 252, 153, 231, 82, 25, 228, 6, 181, 125, 57, 202, 168, 34, 100, 245, 249, 44, 139, 118, 221, 196, 189, 175, 172, 57, 228, 236, 51, 181, 179, 115, 184, 37, 133, 17, 60, 143, 248, 50, 19, 43, 16, 248, 25, 96, 252, 245, 2, 51, 211, 230, 68, 238, 21, 89, 95, 128, 178, 94, 76, 199, 98, 6, 202, 24, 91, 149, 208, 190, 218, 81, 18, 93, 203, 225, 61, 29, 253, 124, 98, 242, 104, 128, 48, 19, 12, 154, 113, 222, 64, 86, 199, 187, 155, 223, 29, 188, 193, 124, 182, 15, 190, 9, 86, 127, 159, 156, 83, 167, 224, 19, 2, 15, 100, 33, 32, 153, 182, 48, 15, 38, 221, 220, 140, 141, 143, 227, 92, 120, 135, 53, 58, 160, 13, 251, 20, 72, 150, 123, 219, 233, 123, 20, 245, 78, 102, 0, 33, 254, 169, 188, 64, 209, 35, 118, 132, 212, 227, 170, 33, 238, 108, 236, 18, 235, 80, 203, 234, 251, 214, 90, 30, 184, 120, 54, 213, 195, 19, 228, 209, 229, 140, 246, 125, 51, 80, 238, 241, 46, 53, 131, 229, 6, 2, 189, 112, 170, 78, 79, 78, 35, 226, 3, 107, 56, 69, 36, 183, 56, 149, 82, 39, 221, 182, 234, 181, 41, 230, 39, 171, 224, 73, 59, 43, 26, 77, 90, 248, 119, 255, 238, 41, 155, 139, 99, 186, 70, 214, 220, 241, 233, 253, 193, 152, 236, 159, 182, 26, 248, 173, 106, 108, 221, 134, 186, 109, 139, 100, 28, 224, 141, 169, 102, 204, 185, 199, 53, 226, 196, 62, 212, 129, 66, 203, 60, 42, 188, 90, 93, 149, 61, 239, 183, 85, 151, 122, 15, 227, 53, 80, 12, 229, 100, 207, 90, 250, 248, 244, 63, 228, 208, 146, 169, 246, 189, 238, 177, 202, 49, 228, 23, 27, 44, 230, 59, 233, 216, 71, 43, 215, 19, 31, 128, 93, 221, 103, 91, 67, 7, 195, 87, 186, 143, 193, 216, 228, 169, 100, 230, 167, 6, 39, 171, 227, 217, 213, 39, 10, 58, 81, 250, 73, 212, 102, 111, 185, 118, 22, 30, 216, 216, 182, 93, 84, 30, 160, 207, 42, 26, 146, 192, 153, 36, 216, 248, 211, 24, 194, 26, 71, 63, 137, 222, 15, 222, 195, 246, 34, 92, 143, 248, 38, 212, 232, 239, 227, 170, 24, 182, 127, 132, 209, 199, 169, 87, 248, 95, 212, 20, 172, 176, 107, 157, 64, 18, 140, 114, 199, 187, 223, 63, 24, 243, 138, 150, 223, 219, 94, 49, 22, 186, 59, 234, 44, 172, 176, 233, 31, 85, 47, 153, 150, 129, 130, 49, 145, 136, 212, 244, 83, 183, 198, 240, 111, 119, 187, 26, 21, 84, 229, 131, 133, 133, 102, 85, 130, 244, 244, 12, 103, 39, 64, 139, 219, 248, 81, 58, 4, 233, 119, 11, 198, 45, 215, 190, 32, 179, 5, 192, 7, 69, 48, 155, 248, 181, 72, 7, 206, 248, 22, 74, 66, 209, 89, 215, 121, 105, 228, 225, 110, 140, 92, 8, 205];
const BIG_SIG_PSS_SHA256: [u8; 576] = [170, 156, 209, 136, 187, 95, 229, 59, 164, 25, 154, 219, 207, 32, 29, 201, 155, 28, 218, 187, 108, 65, 158, 182, 98, 208, 230, 9, 84, 214, 193, 214, 109, 113, 23, 229, 234, 64, 91, 207, 19, 190, 107, 198, 69, 181, 34, 72, 25, 145, 123, 156, 6, 13, 177, 169, 199, 138, 145, 127, 17, 66, 162, 9, 93, 212, 249, 82, 255, 123, 51, 20, 200, 44, 4, 189, 135, 169, 59, 220, 213, 163, 19, 225, 47, 163, 158, 171, 148, 221, 38, 28, 207, 180, 71, 152, 104, 25, 154, 215, 164, 168, 133, 43, 208, 53, 221, 194, 77, 158, 69, 217, 156, 162, 249, 103, 163, 159, 166, 214, 25, 153, 51, 209, 249, 231, 186, 81, 156, 198, 247, 239, 236, 86, 228, 38, 200, 181, 4, 139, 41, 212, 11, 29, 247, 211, 12, 144, 56, 75, 225, 203, 140, 248, 215, 213, 198, 90, 59, 135, 220, 32, 224, 223, 110, 49, 117, 241, 4, 197, 142, 66, 136, 141, 175, 108, 141, 253, 23, 139, 23, 114, 205, 250, 45, 139, 214, 101, 186, 31, 230, 83, 223, 167, 64, 102, 161, 70, 30, 190, 144, 65, 157, 253, 160, 115, 103, 128, 239, 124, 170, 146, 84, 238, 134, 241, 228, 193, 82, 118, 93, 174, 173, 72, 28, 11, 68, 196, 144, 124, 220, 46, 61, 95, 85, 96, 70, 242, 2, 104, 111, 166, 112, 32, 23, 240, 188, 121, 1, 182, 235, 192, 152, 198, 251, 137, 227, 245, 22, 148, 194, 203, 81, 173, 67, 127, 26, 130, 118, 175, 248, 26, 24, 20, 137, 1, 237, 52, 20, 211, 202, 150, 163, 134, 48, 1, 34, 29, 34, 11, 162, 87, 2, 149, 109, 191, 2, 17, 190, 118, 56, 244, 183, 171, 140, 156, 14, 190, 242, 22, 241, 217, 101, 61, 30, 239, 170, 164, 149, 178, 231, 154, 91, 147, 170, 125, 104, 154, 224, 83, 78, 99, 101, 74, 248, 124, 235, 210, 158, 252, 139, 178, 121, 128, 255, 7, 212, 41, 161, 157, 222, 34, 97, 248, 171, 110, 65, 63, 67, 95, 47, 11, 142, 218, 140, 171, 175, 152, 209, 139, 208, 137, 196, 23, 115, 76, 255, 159, 32, 12, 106, 197, 150, 231, 93, 129, 177, 228, 158, 16, 10, 194, 42, 206, 180, 148, 80, 0, 137, 58, 253, 112, 183, 3, 228, 223, 30, 53, 194, 157, 90, 226, 156, 241, 146, 100, 50, 178, 143, 130, 200, 154, 49, 230, 221, 243, 116, 103, 55, 68, 9, 228, 235, 158, 138, 184, 124, 45, 19, 196, 135, 18, 150, 94, 167, 6, 92, 78, 68, 172, 70, 53, 163, 39, 91, 116, 121, 77, 230, 253, 11, 49, 56, 26, 183, 231, 90, 98, 12, 244, 243, 35, 76, 180, 83, 150, 131, 0, 168, 94, 20, 104, 205, 144, 190, 113, 1, 48, 57, 10, 155, 184, 164, 245, 214, 24, 110, 74, 53, 163, 12, 248, 57, 84, 143, 213, 115, 151, 170, 94, 194, 18, 148, 125, 108, 88, 194, 178, 33, 101, 187, 83, 79, 244, 8, 254, 241, 107, 67, 212, 249, 68, 133, 182, 61, 153, 117, 163, 116, 176, 89, 33, 208, 102, 147, 195, 163, 253, 242, 165, 105, 65, 253, 8, 179, 121, 28, 12, 201, 205, 99, 61, 93, 25, 92, 211, 18, 165, 141, 115, 229, 210, 236, 151, 232, 224];
const LOPSIDED_RSA_PRIVATE: [u8; 1035] = [48, 130, 4, 7, 2, 1, 0, 2, 129, 251, 2, 108, 101, 213, 25, 221, 25, 41, 134, 19, 167, 112, 88, 58, 173, 196, 246, 18, 167, 238, 223, 170, 191, 94, 115, 136, 234, 231, 216, 180, 215, 202, 209, 22, 254, 79, 223, 120, 180, 181, 158, 206, 181, 75, 48, 22, 13, 212, 160, 212, 63, 202, 90, 40, 142, 179, 101, 237, 163, 122, 168, 13, 124, 99, 232, 175, 186, 111, 4, 195, 44, 54, 71, 132, 127, 0, 94, 200, 24, 19, 49, 87, 182, 139, 80, 88, 223, 127, 64, 248, 105, 249, 122, 254, 23, 99, 187, 245, 109, 98, 20, 162, 203, 129, 195, 171, 23, 194, 197, 195, 138, 146, 196, 203, 229, 29, 85, 53, 55, 66, 244, 137, 111, 241, 108, 99, 29, 192, 67, 75, 190, 132, 120, 232, 3, 130, 176, 71, 214, 186, 175, 76, 39, 15, 195, 239, 28, 203, 74, 100, 59, 159, 37, 31, 22, 103, 51, 210, 185, 75, 91, 167, 72, 1, 201, 122, 228, 137, 93, 69, 221, 52, 244, 133, 12, 91, 94, 100, 146, 213, 29, 135, 9, 139, 198, 158, 50, 228, 27, 9, 186, 146, 227, 160, 26, 243, 53, 194, 184, 171, 52, 255, 144, 221, 117, 42, 23, 201, 59, 83, 247, 21, 159, 184, 160, 5, 174, 151, 93, 157, 7, 161, 74, 139, 85, 190, 216, 29, 146, 221, 40, 234, 186, 29, 156, 207, 116, 141, 106, 110, 117, 97, 108, 219, 126, 134, 17, 167, 125, 240, 31, 2, 3, 1, 0, 1, 2, 129, 250, 31, 164, 151, 88, 153, 7, 174, 47, 215, 40, 201, 206, 32, 229, 100, 15, 184, 251, 223, 196, 128, 183, 170, 10, 242, 135, 126, 9, 32, 229, 134, 25, 97, 97, 132, 148, 18, 176, 4, 227, 115, 95, 153, 42, 38, 181, 208, 139, 222, 28, 221, 123, 249, 18, 238, 54, 48, 178, 15, 59, 128, 105, 235, 201, 73, 34, 149, 47, 5, 0, 18, 244, 170, 222, 180, 194, 32, 213, 57, 133, 97, 109, 63, 112, 123, 2, 160, 150, 246, 105, 251, 254, 56, 159, 134, 29, 102, 200, 140, 33, 115, 252, 53, 67, 126, 247, 216, 158, 5, 164, 141, 21, 47, 54, 119, 17, 224, 46, 80, 13, 70, 69, 72, 188, 98, 129, 205, 245, 246, 19, 13, 145, 87, 206, 203, 92, 250, 98, 96, 16, 142, 45, 202, 134, 186, 130, 25, 118, 253, 227, 28, 156, 57, 109, 177, 195, 46, 232, 76, 137, 1, 139, 60, 1, 110, 199, 54, 159, 185, 239, 45, 24, 70, 86, 79, 2, 184, 43, 213, 16, 53, 209, 173, 126, 21, 64, 229, 233, 139, 33, 125, 4, 124, 124, 184, 189, 155, 228, 236, 182, 147, 77, 22, 233, 54, 240, 103, 164, 120, 90, 141, 230, 118, 74, 232, 127, 72, 134, 121, 207, 232, 123, 115, 135, 226, 189, 91, 36, 203, 213, 158, 109, 242, 103, 97, 29, 108, 190, 106, 75, 223, 181, 145, 172, 110, 98, 37, 119, 130, 241, 2, 1, 3, 2, 129, 251, 0, 206, 204, 156, 93, 244, 93, 184, 130, 6, 141, 37, 114, 190, 57, 236, 82, 6, 55, 250, 74, 142, 63, 202, 38, 130, 248, 247, 242, 230, 242, 152, 240, 92, 255, 111, 245, 40, 60, 60, 138, 68, 231, 25, 16, 7, 89, 241, 138, 241, 106, 152, 200, 184, 47, 145, 33, 249, 225, 40, 226, 175, 41, 118, 162, 229, 62, 37, 1, 150, 100, 18, 23, 214, 213, 0, 31, 152, 8, 6, 101, 199, 231, 131, 197, 114, 245, 42, 106, 253, 120, 168, 126, 84, 178, 118, 147, 252, 121, 203, 92, 54, 67, 213, 235, 227, 178, 150, 65, 235, 216, 219, 150, 238, 161, 180, 113, 188, 103, 192, 252, 45, 207, 251, 36, 33, 9, 234, 193, 25, 63, 129, 125, 162, 171, 214, 58, 194, 156, 232, 229, 25, 98, 90, 150, 165, 9, 153, 24, 204, 19, 223, 183, 10, 92, 205, 17, 70, 61, 195, 201, 55, 194, 171, 67, 40, 246, 216, 116, 108, 159, 17, 166, 215, 4, 30, 116, 204, 48, 241, 180, 130, 88, 131, 236, 223, 102, 76, 9, 3, 62, 48, 246, 138, 179, 166, 103, 64, 232, 57, 17, 170, 133, 159, 39, 14, 7, 237, 190, 113, 82, 92, 138, 146, 224, 1, 228, 221, 31, 52, 87, 224, 110, 46, 113, 234, 72, 9, 219, 159, 13, 163, 147, 95, 52, 69, 38, 217, 206, 36, 209, 203, 36, 73, 42, 44, 176, 141, 41, 250, 181, 2, 1, 1, 2, 129, 250, 31, 164, 151, 88, 153, 7, 174, 47, 215, 40, 201, 206, 32, 229, 100, 15, 184, 251, 223, 196, 128, 183, 170, 10, 242, 135, 126, 9, 32, 229, 134, 25, 97, 97, 132, 148, 18, 176, 4, 227, 115, 95, 153, 42, 38, 181, 208, 139, 222, 28, 221, 123, 249, 18, 238, 54, 48, 178, 15, 59, 128, 105, 235, 201, 73, 34, 149, 47, 5, 0, 18, 244, 170, 222, 180, 194, 32, 213, 57, 133, 97, 109, 63, 112, 123, 2, 160, 150, 246, 105, 251, 254, 56, 159, 134, 29, 102, 200, 140, 33, 115, 252, 53, 67, 126, 247, 216, 158, 5, 164, 141, 21, 47, 54, 119, 17, 224, 46, 80, 13, 70, 69, 72, 188, 98, 129, 205, 245, 246, 19, 13, 145, 87, 206, 203, 92, 250, 98, 96, 16, 142, 45, 202, 134, 186, 130, 25, 118, 253, 227, 28, 156, 57, 109, 177, 195, 46, 232, 76, 137, 1, 139, 60, 1, 110, 199, 54, 159, 185, 239, 45, 24, 70, 86, 79, 2, 184, 43, 213, 16, 53, 209, 173, 126, 21, 64, 229, 233, 139, 33, 125, 4, 124, 124, 184, 189, 155, 228, 236, 182, 147, 77, 22, 233, 54, 240, 103, 164, 120, 90, 141, 230, 118, 74, 232, 127, 72, 134, 121, 207, 232, 123, 115, 135, 226, 189, 91, 36, 203, 213, 158, 109, 242, 103, 97, 29, 108, 190, 106, 75, 223, 181, 145, 172, 110, 98, 37, 119, 130, 241, 2, 1, 1];

fn rng() -> rand::rngs::StdRng {
    rand::SeedableRng::seed_from_u64(42)
}

fn key(key_type: KeyType, data: &[u8]) -> KeyData {
    KeyData { key_type, data: data.to_vec() }
}

#[test]
fn digest_known_answers() {
    assert_eq!(CryptoOps::subtle_digest(CryptoHash::Sha1, b"abc".to_vec()), Ok(SHA1_ABC.to_vec()));
    assert_eq!(
        CryptoOps::subtle_digest(CryptoHash::Sha256, b"abc".to_vec()),
        Ok(SHA256_ABC.to_vec())
    );
    assert_eq!(
        CryptoOps::subtle_digest(CryptoHash::Sha384, b"abc".to_vec()),
        Ok(SHA384_ABC.to_vec())
    );
    assert_eq!(
        CryptoOps::subtle_digest(CryptoHash::Sha512, b"abc".to_vec()),
        Ok(SHA512_ABC.to_vec())
    );
}

#[test]
fn digest_lengths() {
    assert_eq!(digest_length(CryptoHash::Sha1), 20);
    assert_eq!(digest_length(CryptoHash::Sha256), 32);
    assert_eq!(digest_length(CryptoHash::Sha384), 48);
    assert_eq!(digest_length(CryptoHash::Sha512), 64);
}

#[test]
fn hmac_sign_known_answer() {
    let tag = CryptoOps::sign(
        b"key",
        b"The quick brown fox jumps over the lazy dog",
        Algorithm::Hmac,
        Some(CryptoHash::Sha256),
        None,
        None,
    );
    assert_eq!(tag, Ok(HMAC_SHA256.to_vec()));
}

#[test]
fn hmac_sign_needs_a_hash() {
    assert_eq!(
        CryptoOps::sign(b"key", b"data", Algorithm::Hmac, None, None, None),
        Err(CryptoError::NotSupported)
    );
}

#[test]
fn hmac_verify_accepts_only_the_tag() {
    let data = b"The quick brown fox jumps over the lazy dog";
    let accepted = CryptoOps::verify(
        key(KeyType::Secret, b"key"),
        data,
        &HMAC_SHA256,
        Algorithm::Hmac,
        None,
        Some(CryptoHash::Sha256),
    );
    assert_eq!(accepted, Ok(true));
    let mut wrong = HMAC_SHA256;
    wrong[0] ^= 1;
    let rejected = CryptoOps::verify(
        key(KeyType::Secret, b"key"),
        data,
        &wrong,
        Algorithm::Hmac,
        None,
        Some(CryptoHash::Sha256),
    );
    assert_eq!(rejected, Ok(false));
    let no_hash =
        CryptoOps::verify(key(KeyType::Secret, b"key"), data, &wrong, Algorithm::Hmac, None, None);
    assert_eq!(no_hash, Err(CryptoError::NotSupported));
}

#[test]
fn rsa_pkcs1v15_sign_known_answer() {
    let signature = CryptoOps::sign(
        &RSA_PRIVATE,
        MESSAGE,
        Algorithm::RsassaPkcs1v15,
        Some(CryptoHash::Sha256),
        None,
        None,
    );
    assert_eq!(signature, Ok(SIG_PKCS1V15_SHA256.to_vec()));
    let signature = CryptoOps::sign(
        &RSA_PRIVATE,
        MESSAGE,
        Algorithm::RsassaPkcs1v15,
        Some(CryptoHash::Sha1),
        None,
        None,
    );
    assert_eq!(signature, Ok(SIG_PKCS1V15_SHA1.to_vec()));
}

#[test]
fn rsa_pkcs1v15_sign_argument_errors() {
    assert_eq!(
        CryptoOps::sign(b"no key", MESSAGE, Algorithm::RsassaPkcs1v15, None, None, None),
        Err(CryptoError::InvalidKey)
    );
    assert_eq!(
        CryptoOps::sign(&RSA_PRIVATE, MESSAGE, Algorithm::RsassaPkcs1v15, None, None, None),
        Err(CryptoError::MissingHash)
    );
    // a public key is no private key
    assert_eq!(
        CryptoOps::sign(
            &RSA_PUBLIC,
            MESSAGE,
            Algorithm::RsassaPkcs1v15,
            Some(CryptoHash::Sha256),
            None,
            None
        ),
        Err(CryptoError::InvalidKey)
    );
}

#[test]
fn rsa_pss_sign_has_no_randomness() {
    assert_eq!(
        CryptoOps::sign(b"no key", MESSAGE, Algorithm::RsaPss, None, Some(32), None),
        Err(CryptoError::InvalidKey)
    );
    assert_eq!(
        CryptoOps::sign(
            &RSA_PRIVATE,
            MESSAGE,
            Algorithm::RsaPss,
            Some(CryptoHash::Sha256),
            None,
            None
        ),
        Err(CryptoError::MissingSaltLength)
    );
    assert_eq!(
        CryptoOps::sign(
            &RSA_PRIVATE,
            MESSAGE,
            Algorithm::RsaPss,
            Some(CryptoHash::Sha256),
            Some(32),
            None
        ),
        Err(CryptoError::RandomUnavailable)
    );
}

#[test]
fn ecdsa_sign_has_no_randomness() {
    assert_eq!(
        CryptoOps::sign(b"key", MESSAGE, Algorithm::Ecdsa, Some(CryptoHash::Sha256), None, None),
        Err(CryptoError::NotSupported)
    );
    assert_eq!(
        CryptoOps::sign(
            b"key",
            MESSAGE,
            Algorithm::Ecdsa,
            Some(CryptoHash::Sha1),
            None,
            Some(CryptoNamedCurve::P256)
        ),
        Err(CryptoError::RandomUnavailable)
    );
}

#[test]
fn sign_rejects_other_algorithms() {
    for algorithm in [
        Algorithm::RsaOaep,
        Algorithm::Ecdh,
        Algorithm::AesCtr,
        Algorithm::AesCbc,
        Algorithm::AesGcm,
        Algorithm::AesKw,
        Algorithm::Pbkdf2,
        Algorithm::Hkdf,
    ] {
        assert_eq!(
            CryptoOps::sign(b"key", MESSAGE, algorithm, Some(CryptoHash::Sha256), None, None),
            Err(CryptoError::UnsupportedAlgorithm)
        );
        assert_eq!(
            CryptoOps::verify(
                key(KeyType::Public, b"key"),
                MESSAGE,
                b"sig",
                algorithm,
                None,
                Some(CryptoHash::Sha256)
            ),
            Err(CryptoError::UnsupportedAlgorithm)
        );
    }
}

#[test]
fn rsa_public_key_is_read_from_either_half() {
    assert_eq!(read_rsa_public_key(&key(KeyType::Public, &RSA_PUBLIC)), Ok(false));
    assert_eq!(read_rsa_public_key(&key(KeyType::Private, &RSA_PRIVATE)), Ok(true));
    assert_eq!(
        read_rsa_public_key(&key(KeyType::Public, &RSA_PRIVATE)),
        Err(CryptoError::InvalidKey)
    );
    assert_eq!(
        read_rsa_public_key(&key(KeyType::Private, &RSA_PUBLIC)),
        Err(CryptoError::InvalidKey)
    );
    assert_eq!(read_rsa_public_key(&key(KeyType::Private, &BIG_RSA_PRIVATE)), Ok(true));
    assert_eq!(
        read_rsa_public_key(&key(KeyType::Public, &BIG_RSA_PUBLIC)),
        Err(CryptoError::InvalidKey)
    );
}

#[test]
fn rsa_verify_with_a_private_key_over_4096_bits() {
    assert_eq!(
        CryptoOps::verify(
            key(KeyType::Private, &BIG_RSA_PRIVATE),
            MESSAGE,
            &BIG_SIG_PKCS1V15_SHA256,
            Algorithm::RsassaPkcs1v15,
            None,
            Some(CryptoHash::Sha256)
        ),
        Ok(true)
    );
    assert_eq!(
        CryptoOps::verify(
            key(KeyType::Private, &BIG_RSA_PRIVATE),
            b"another message",
            &BIG_SIG_PKCS1V15_SHA256,
            Algorithm::RsassaPkcs1v15,
            None,
            Some(CryptoHash::Sha256)
        ),
        Ok(false)
    );
    assert_eq!(
        CryptoOps::verify(
            key(KeyType::Private, &BIG_RSA_PRIVATE),
            MESSAGE,
            &BIG_SIG_PSS_SHA256,
            Algorithm::RsaPss,
            None,
            Some(CryptoHash::Sha256)
        ),
        Ok(true)
    );
}

#[test]
fn rsa_public_key_over_4096_bits_does_not_decode() {
    assert_eq!(
        CryptoOps::verify(
            key(KeyType::Public, &BIG_RSA_PUBLIC),
            MESSAGE,
            &BIG_SIG_PKCS1V15_SHA256,
            Algorithm::RsassaPkcs1v15,
            None,
            Some(CryptoHash::Sha256)
        ),
        Err(CryptoError::InvalidKey)
    );
}

#[test]
fn rsa_sign_with_a_private_key_over_4096_bits_verifies() {
    let signature = CryptoOps::sign(
        &BIG_RSA_PRIVATE,
        MESSAGE,
        Algorithm::RsassaPkcs1v15,
        Some(CryptoHash::Sha256),
        None,
        None,
    );
    assert_eq!(signature, Ok(BIG_SIG_PKCS1V15_SHA256.to_vec()));
}

#[test]
fn rsa_sign_refuses_a_key_with_unequal_primes() {
    assert_eq!(
        CryptoOps::sign(
            &LOPSIDED_RSA_PRIVATE,
            MESSAGE,
            Algorithm::RsassaPkcs1v15,
            Some(CryptoHash::Sha256),
            None,
            None
        ),
        Err(CryptoError::UnbalancedKey)
    );
    // the key decodes: the digest is asked for first
    assert_eq!(
        CryptoOps::sign(&LOPSIDED_RSA_PRIVATE, MESSAGE, Algorithm::RsassaPkcs1v15, None, None, None),
        Err(CryptoError::MissingHash)
    );
    // and it can still be used to check signatures
    assert_eq!(
        CryptoOps::verify(
            key(KeyType::Private, &LOPSIDED_RSA_PRIVATE),
            MESSAGE,
            &SIG_PKCS1V15_SHA256,
            Algorithm::RsassaPkcs1v15,
            None,
            Some(CryptoHash::Sha256)
        ),
        Ok(false)
    );
}

#[test]
fn what_is_signed_verifies() {
    for hash in [CryptoHash::Sha1, CryptoHash::Sha256, CryptoHash::Sha384, CryptoHash::Sha512] {
        let signature =
            CryptoOps::sign(&RSA_PRIVATE, MESSAGE, Algorithm::RsassaPkcs1v15, Some(hash), None, None)
                .unwrap();
        assert_eq!(
            CryptoOps::verify(
                key(KeyType::Private, &RSA_PRIVATE),
                MESSAGE,
                &signature,
                Algorithm::RsassaPkcs1v15,
                None,
                Some(hash)
            ),
            Ok(true)
        );
        let tag =
            CryptoOps::sign(b"secret", MESSAGE, Algorithm::Hmac, Some(hash), None, None).unwrap();
        assert_eq!(tag.len() as u64, digest_length(hash));
        assert_eq!(
            CryptoOps::verify(
                key(KeyType::Secret, b"secret"),
                MESSAGE,
                &tag,
                Algorithm::Hmac,
                None,
                Some(hash)
            ),
            Ok(true)
        );
        assert_eq!(
            CryptoOps::verify(
                key(KeyType::Secret, b"secret"),
                b"other data",
                &tag,
                Algorithm::Hmac,
                None,
                Some(hash)
            ),
            Ok(false)
        );
        assert_eq!(
            CryptoOps::verify(
                key(KeyType::Secret, b"secret"),
                MESSAGE,
                b"",
                Algorithm::Hmac,
                None,
                Some(hash)
            ),
            Ok(false)
        );
    }
}

#[test]
fn derived_bits_have_the_length_asked_for() {
    for length in [8usize, 64, 160, 512, 1000 * 8] {
        let bits = CryptoOps::derive_bits(
            derive_arg(Algorithm::Pbkdf2, Some(CryptoHash::Sha384), length, Some(3)),
            Some(b"salt".to_vec()),
        )
        .unwrap();
        assert_eq!(bits.len(), length / 8);
    }
}

#[test]
fn rsa_pkcs1v15_verify() {
    for (key_type, bytes) in [(KeyType::Public, &RSA_PUBLIC[..]), (KeyType::Private, &RSA_PRIVATE[..])]
    {
        assert_eq!(
            CryptoOps::verify(
                key(key_type, bytes),
                MESSAGE,
                &SIG_PKCS1V15_SHA256,
                Algorithm::RsassaPkcs1v15,
                None,
                Some(CryptoHash::Sha256)
            ),
            Ok(true)
        );
        assert_eq!(
            CryptoOps::verify(
                key(key_type, bytes),
                b"another message",
                &SIG_PKCS1V15_SHA256,
                Algorithm::RsassaPkcs1v15,
                None,
                Some(CryptoHash::Sha256)
            ),
            Ok(false)
        );
        assert_eq!(
            CryptoOps::verify(
                key(key_type, bytes),
                MESSAGE,
                &SIG_PKCS1V15_SHA256,
                Algorithm::RsassaPkcs1v15,
                None,
                Some(CryptoHash::Sha384)
            ),
            Ok(false)
        );
    }
    assert_eq!(
        CryptoOps::verify(
            key(KeyType::Public, &RSA_PUBLIC),
            MESSAGE,
            &SIG_PKCS1V15_SHA256,
            Algorithm::RsassaPkcs1v15,
            None,
            None
        ),
        Err(CryptoError::MissingHash)
    );
    assert_eq!(
        CryptoOps::verify(
            key(KeyType::Public, b"junk"),
            MESSAGE,
            &SIG_PKCS1V15_SHA256,
            Algorithm::RsassaPkcs1v15,
            None,
            None
        ),
        Err(CryptoError::InvalidKey)
    );
}

#[test]
fn rsa_pss_verify() {
    assert_eq!(
        CryptoOps::verify(
            key(KeyType::Public, &RSA_PUBLIC),
            MESSAGE,
            &SIG_PSS_SHA256,
            Algorithm::RsaPss,
            None,
            Some(CryptoHash::Sha256)
        ),
        Ok(true)
    );
    assert_eq!(
        CryptoOps::verify(
            key(KeyType::Private, &RSA_PRIVATE),
            MESSAGE,
            &SIG_PKCS1V15_SHA256,
            Algorithm::RsaPss,
            None,
            Some(CryptoHash::Sha256)
        ),
        Ok(false)
    );
    assert_eq!(
        CryptoOps::verify(
            key(KeyType::Public, &RSA_PUBLIC),
            MESSAGE,
            &SIG_PSS_SHA256,
            Algorithm::RsaPss,
            None,
            None
        ),
        Err(CryptoError::MissingHash)
    );
}

#[test]
fn ecdsa_verify() {
    let verify = |key_type, data: &[u8], curve| {
        CryptoOps::verify(
            key(key_type, &EC_PUBLIC),
            data,
            &EC_SIGNATURE,
            Algorithm::Ecdsa,
            curve,
            None,
        )
    };
    assert_eq!(verify(KeyType::Public, MESSAGE, Some(CryptoNamedCurve::P256)), Ok(true));
    assert_eq!(verify(KeyType::Public, b"other", Some(CryptoNamedCurve::P256)), Ok(false));
    assert_eq!(verify(KeyType::Public, MESSAGE, Some(CryptoNamedCurve::P384)), Ok(false));
    assert_eq!(verify(KeyType::Public, MESSAGE, None), Err(CryptoError::NotSupported));
    assert_eq!(
        verify(KeyType::Private, MESSAGE, Some(CryptoNamedCurve::P256)),
        Err(CryptoError::RandomUnavailable)
    );
    assert_eq!(
        verify(KeyType::Secret, MESSAGE, Some(CryptoNamedCurve::P256)),
        Err(CryptoError::InvalidKeyFormat)
    );
}

fn derive_arg(
    algorithm: Algorithm,
    hash: Option<CryptoHash>,
    length: usize,
    iterations: Option<u32>,
) -> DeriveKeyArg {
    DeriveKeyArg { key: key(KeyType::Secret, b"password"), algorithm, hash, length, iterations }
}

#[test]
fn pbkdf2_known_answers() {
    let bits = CryptoOps::derive_bits(
        derive_arg(Algorithm::Pbkdf2, Some(CryptoHash::Sha1), 160, Some(2)),
        Some(b"salt".to_vec()),
    );
    assert_eq!(bits, Ok(PBKDF2_SHA1.to_vec()));
    let bits = CryptoOps::derive_bits(
        derive_arg(Algorithm::Pbkdf2, Some(CryptoHash::Sha256), 256, Some(1)),
        Some(b"salt".to_vec()),
    );
    assert_eq!(bits, Ok(PBKDF2_SHA256.to_vec()));
    let bits = CryptoOps::derive_bits(
        derive_arg(Algorithm::Pbkdf2, Some(CryptoHash::Sha256), 64, Some(1)),
        Some(b"salt".to_vec()),
    );
    assert_eq!(bits, Ok(PBKDF2_SHA256[..8].to_vec()));
}

#[test]
fn derive_bits_argument_errors() {
    let salt = || Some(b"salt".to_vec());
    assert_eq!(
        CryptoOps::derive_bits(
            derive_arg(Algorithm::Pbkdf2, Some(CryptoHash::Sha1), 160, Some(2)),
            None
        ),
        Err(CryptoError::NotSupported)
    );
    assert_eq!(
        CryptoOps::derive_bits(derive_arg(Algorithm::Pbkdf2, None, 160, Some(2)), salt()),
        Err(CryptoError::NotSupported)
    );
    assert_eq!(
        CryptoOps::derive_bits(
            derive_arg(Algorithm::Pbkdf2, Some(CryptoHash::Sha1), 160, None),
            salt()
        ),
        Err(CryptoError::NotSupported)
    );
    assert_eq!(
        CryptoOps::derive_bits(derive_arg(Algorithm::Ecdh, None, 160, None), salt()),
        Err(CryptoError::NotImplemented)
    );
    assert_eq!(
        CryptoOps::derive_bits(derive_arg(Algorithm::Hkdf, None, 160, None), None),
        Err(CryptoError::NotImplemented)
    );
    assert_eq!(
        CryptoOps::derive_bits(derive_arg(Algorithm::Hmac, None, 160, None), salt()),
        Err(CryptoError::UnsupportedAlgorithm)
    );
}

#[test]
fn random_values_have_the_length_asked_for() {
    let mut rng = rng();
    assert_eq!(CryptoOps::get_random_values(&mut rng, 0).unwrap().len(), 0);
    assert_eq!(CryptoOps::get_random_values(&mut rng, 17).unwrap().len(), 17);
    assert_eq!(
        CryptoOps::get_random_values(&mut rng, MAX_RANDOM_BYTES).unwrap().len(),
        MAX_RANDOM_BYTES as usize
    );
    assert_eq!(
        CryptoOps::get_random_values(&mut rng, MAX_RANDOM_BYTES + 1),
        Err(CryptoError::LengthTooLarge)
    );
    let bytes = CryptoOps::get_random_values(&mut rng, 64).unwrap();
    assert!(bytes.iter().any(|byte| *byte != 0));
}

#[test]
fn uuid_gets_the_random_version() {
    let bytes = [0xff; 16];
    let uuid = CryptoOps::uuid_from_bytes(bytes);
    let mut expected = bytes;
    expected[6] = 0x4f;
    assert_eq!(uuid, expected);
    assert_eq!(CryptoOps::uuid_from_bytes([0; 16])[6], 0x40);
    for seed in 0u8..=255 {
        let mut bytes = [0u8; 16];
        for (i, byte) in bytes.iter_mut().enumerate() {
            *byte = seed.wrapping_mul(31).wrapping_add(i as u8 * 17);
        }
        bytes[6] = seed;
        let built = uuid::Builder::from_bytes(bytes)
            .with_version(uuid::Version::Random)
            .into_uuid()
            .into_bytes();
        assert_eq!(CryptoOps::uuid_from_bytes(bytes), built);
    }
    let random = CryptoOps::random_uuid(&mut rng()).unwrap();
    assert_eq!(random[6] & 0xf0, 0x40);
    assert_eq!(uuid::Uuid::from_bytes(random).get_version(), Some(uuid::Version::Random));
}

#[test]
fn base64_url_decoding() {
    assert_eq!(CryptoOps::base64_url_decode("aGVsbG8gd29ybGQhPw"), Ok(b"hello world!?".to_vec()));
    assert_eq!(CryptoOps::base64_url_decode("-_8"), Ok(vec![0xfb, 0xff]));
    assert_eq!(CryptoOps::base64_url_decode(""), Ok(Vec::new()));
    assert_eq!(CryptoOps::base64_url_decode("+/8"), Err(CryptoError::InvalidEncoding));
    assert_eq!(CryptoOps::base64_url_decode("aGVsbG8"), Ok(b"hello".to_vec()));
    assert_eq!(CryptoOps::base64_url_decode("a"), Err(CryptoError::InvalidEncoding));
    assert_eq!(CryptoOps::base64_url_decode("aG Vs"), Err(CryptoError::InvalidEncoding));
}
