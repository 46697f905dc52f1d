//! What a tensor of a recorded graph stands for.
//!
//! A recorded graph is a list of tensor operations that a ggml backend runs
//! later.  Each tensor denotes a four-dimensional array of symbolic scalars:
//! terms over the elements of the leaf tensors.  Two graphs that denote the
//! same terms compute the same numbers on every backend.

use vstd::prelude::*;

verus! {

/// Size of one tensor element in bytes.
pub const ELEMENT_BYTES: usize = 4;

/// A symbolic scalar.  Constants are 32-bit float bit patterns.
pub enum Scalar {
    /// Element `(i0, i1, i2, i3)` of the leaf tensor with handle `leaf`.
    Leaf { leaf: int, i0: int, i1: int, i2: int, i3: int },
    /// The zero that padding contributes.
    Zero,
    Sum(Box<Scalar>, Box<Scalar>),
    Difference(Box<Scalar>, Box<Scalar>),
    Product(Box<Scalar>, Box<Scalar>),
    Quotient(Box<Scalar>, Box<Scalar>),
    /// The scalar times a constant.
    Scaled(Box<Scalar>, u32),
    /// The scalar times the exponential of a constant.
    ScaledByExp(Box<Scalar>, u32),
    Square(Box<Scalar>),
    SquareRoot(Box<Scalar>),
    Softplus(Box<Scalar>),
    Sigmoid(Box<Scalar>),
    Tanh(Box<Scalar>),
    Relu(Box<Scalar>),
    /// The inner product of two equally long lists.
    Dot(Seq<Scalar>, Seq<Scalar>),
    Mean(Seq<Scalar>),
    /// Entry `index` of the softmax of `scale * row + mask`.
    Softmax { row: Seq<Scalar>, mask: Option<Seq<Scalar>>, scale: u32, max_bias: u32, index: int },
    /// Entry of the table row that the index scalar selects.
    Gathered { table: Seq<Scalar>, selector: Box<Scalar> },
    /// Position of the largest entry of a row.
    ArgMax(Seq<Scalar>),
}

/// Four dimensions, the fastest varying first.
#[derive(Clone, Copy, Debug, PartialEq, Eq, Structural)]
pub struct Shape4 {
    pub ne0: usize,
    pub ne1: usize,
    pub ne2: usize,
    pub ne3: usize,
}

/// Strides, paddings and dilations of a two-dimensional convolution.
#[derive(Clone, Copy, Debug, PartialEq, Eq, Structural)]
pub struct ConvParams {
    pub stride_w: usize,
    pub stride_h: usize,
    pub pad_w: usize,
    pub pad_h: usize,
    pub dilation_w: usize,
    pub dilation_h: usize,
}

/// The denotation of a tensor: its dimensions and its elements.
///
/// `dense` says that the elements lie in memory one after the other in
/// row-major order, the only layout that views and reshapes may address.
#[verifier::ext_equal]
pub struct TensorValue {
    pub ne0: int,
    pub ne1: int,
    pub ne2: int,
    pub ne3: int,
    pub dense: bool,
    pub at: spec_fn(int, int, int, int) -> Scalar,
}

/// Length of one axis after a convolution.
pub open spec fn conv_axis(input: int, kernel: int, stride: int, pad: int, dilation: int) -> int {
    (input + 2 * pad - dilation * (kernel - 1) - 1) / stride + 1
}

impl TensorValue {
    /// A leaf tensor.
    pub open spec fn leaf(leaf: int, shape: Shape4) -> TensorValue {
        TensorValue {
            ne0: shape.ne0 as int,
            ne1: shape.ne1 as int,
            ne2: shape.ne2 as int,
            ne3: shape.ne3 as int,
            dense: true,
            at: |i0: int, i1: int, i2: int, i3: int| Scalar::Leaf { leaf, i0, i1, i2, i3 },
        }
    }

    pub open spec fn has_shape(self, ne0: int, ne1: int, ne2: int, ne3: int) -> bool {
        self.ne0 == ne0 && self.ne1 == ne1 && self.ne2 == ne2 && self.ne3 == ne3
    }

    /// The element at row-major position `k`.
    pub open spec fn flat(self, k: int) -> Scalar {
        (self.at)(
            k % self.ne0,
            (k / self.ne0) % self.ne1,
            (k / (self.ne0 * self.ne1)) % self.ne2,
            k / (self.ne0 * self.ne1 * self.ne2),
        )
    }

    /// The same elements, moved so that they are dense.
    pub open spec fn cont(self) -> TensorValue {
        TensorValue { dense: true, ..self }
    }

    /// The element that another tensor of the same or a repeating shape pairs
    /// with position `(i0, i1, i2, i3)`.
    pub open spec fn repeated(self, i0: int, i1: int, i2: int, i3: int) -> Scalar {
        (self.at)(i0 % self.ne0, i1 % self.ne1, i2 % self.ne2, i3 % self.ne3)
    }

    pub open spec fn plus(self, other: TensorValue) -> TensorValue {
        TensorValue {
            dense: true,
            at: |i0: int, i1: int, i2: int, i3: int|
                Scalar::Sum(
                    Box::new((self.at)(i0, i1, i2, i3)),
                    Box::new(other.repeated(i0, i1, i2, i3)),
                ),
            ..self
        }
    }

    pub open spec fn minus(self, other: TensorValue) -> TensorValue {
        TensorValue {
            dense: true,
            at: |i0: int, i1: int, i2: int, i3: int|
                Scalar::Difference(
                    Box::new((self.at)(i0, i1, i2, i3)),
                    Box::new(other.repeated(i0, i1, i2, i3)),
                ),
            ..self
        }
    }

    pub open spec fn times(self, other: TensorValue) -> TensorValue {
        TensorValue {
            dense: true,
            at: |i0: int, i1: int, i2: int, i3: int|
                Scalar::Product(
                    Box::new((self.at)(i0, i1, i2, i3)),
                    Box::new(other.repeated(i0, i1, i2, i3)),
                ),
            ..self
        }
    }

    pub open spec fn over(self, other: TensorValue) -> TensorValue {
        TensorValue {
            dense: true,
            at: |i0: int, i1: int, i2: int, i3: int|
                Scalar::Quotient(
                    Box::new((self.at)(i0, i1, i2, i3)),
                    Box::new(other.repeated(i0, i1, i2, i3)),
                ),
            ..self
        }
    }

    /// The tensor with `f` applied to each element.
    pub open spec fn mapped(self, f: spec_fn(Scalar) -> Scalar) -> TensorValue {
        TensorValue {
            dense: true,
            at: |i0: int, i1: int, i2: int, i3: int| f((self.at)(i0, i1, i2, i3)),
            ..self
        }
    }

    pub open spec fn scaled(self, factor: u32) -> TensorValue {
        self.mapped(|x: Scalar| Scalar::Scaled(Box::new(x), factor))
    }

    pub open spec fn scaled_by_exp(self, exponent: u32) -> TensorValue {
        self.mapped(|x: Scalar| Scalar::ScaledByExp(Box::new(x), exponent))
    }

    pub open spec fn squared(self) -> TensorValue {
        self.mapped(|x: Scalar| Scalar::Square(Box::new(x)))
    }

    pub open spec fn square_root(self) -> TensorValue {
        self.mapped(|x: Scalar| Scalar::SquareRoot(Box::new(x)))
    }

    pub open spec fn softplus(self) -> TensorValue {
        self.mapped(|x: Scalar| Scalar::Softplus(Box::new(x)))
    }

    pub open spec fn sigmoid(self) -> TensorValue {
        self.mapped(|x: Scalar| Scalar::Sigmoid(Box::new(x)))
    }

    pub open spec fn tanh(self) -> TensorValue {
        self.mapped(|x: Scalar| Scalar::Tanh(Box::new(x)))
    }

    pub open spec fn relu(self) -> TensorValue {
        self.mapped(|x: Scalar| Scalar::Relu(Box::new(x)))
    }

    /// Row `(i1, i2, i3)` as a list.
    pub open spec fn row(self, i1: int, i2: int, i3: int) -> Seq<Scalar> {
        Seq::new(self.ne0 as nat, |i0: int| (self.at)(i0, i1, i2, i3))
    }

    /// Each row replaced by its mean.
    pub open spec fn mean_rows(self) -> TensorValue {
        TensorValue {
            ne0: 1,
            dense: true,
            at: |i0: int, i1: int, i2: int, i3: int| Scalar::Mean(self.row(i1, i2, i3)),
            ..self
        }
    }

    /// Softmax along each row, after scaling and adding the mask.
    pub open spec fn soft_max(
        self,
        mask: Option<TensorValue>,
        scale: u32,
        max_bias: u32,
    ) -> TensorValue {
        TensorValue {
            dense: true,
            at: |i0: int, i1: int, i2: int, i3: int|
                Scalar::Softmax {
                    row: self.row(i1, i2, i3),
                    mask: match mask {
                        Some(m) => Some(
                            Seq::new(self.ne0 as nat, |j0: int| m.repeated(j0, i1, i2, i3)),
                        ),
                        None => None,
                    },
                    scale,
                    max_bias,
                    index: i0,
                },
            ..self
        }
    }

    /// Inner products of the rows of `self` with the rows of `other`; the
    /// planes of `self` repeat over the planes of `other`.
    pub open spec fn mul_mat(self, other: TensorValue) -> TensorValue {
        TensorValue {
            ne0: self.ne1,
            ne1: other.ne1,
            ne2: other.ne2,
            ne3: other.ne3,
            dense: true,
            at: |i0: int, i1: int, i2: int, i3: int|
                Scalar::Dot(
                    self.row(i0, i2 / (other.ne2 / self.ne2), i3 / (other.ne3 / self.ne3)),
                    other.row(i1, i2, i3),
                ),
        }
    }

    /// The same elements in row-major order under other dimensions.
    pub open spec fn reshaped(self, ne0: int, ne1: int, ne2: int, ne3: int) -> TensorValue {
        TensorValue {
            ne0,
            ne1,
            ne2,
            ne3,
            dense: true,
            at: |i0: int, i1: int, i2: int, i3: int|
                self.flat(((i3 * ne2 + i2) * ne1 + i1) * ne0 + i0),
        }
    }

    /// Elements picked by byte strides from a byte offset.
    pub open spec fn strided(
        self,
        ne0: int,
        ne1: int,
        ne2: int,
        ne3: int,
        nb1: int,
        nb2: int,
        nb3: int,
        offset: int,
    ) -> TensorValue {
        TensorValue {
            ne0,
            ne1,
            ne2,
            ne3,
            dense: false,
            at: |i0: int, i1: int, i2: int, i3: int|
                self.flat((offset + i1 * nb1 + i2 * nb2 + i3 * nb3) / (ELEMENT_BYTES as int) + i0),
        }
    }

    /// `ne1` rows of `ne0` elements, `nb1` bytes apart, from a byte offset,
    /// copied out.
    pub open spec fn window(self, ne0: int, ne1: int, nb1: int, offset: int) -> TensorValue {
        self.strided(ne0, ne1, 1, 1, nb1, nb1 * ne1, nb1 * ne1, offset).cont()
    }

    /// `self` followed by `other` along axis `dim`.
    pub open spec fn concat(self, other: TensorValue, dim: int) -> TensorValue {
        TensorValue {
            ne0: if dim == 0 { self.ne0 + other.ne0 } else { self.ne0 },
            ne1: if dim == 1 { self.ne1 + other.ne1 } else { self.ne1 },
            ne2: if dim == 2 { self.ne2 + other.ne2 } else { self.ne2 },
            ne3: if dim == 3 { self.ne3 + other.ne3 } else { self.ne3 },
            dense: true,
            at: |i0: int, i1: int, i2: int, i3: int|
                if dim == 0 && i0 >= self.ne0 {
                    (other.at)(i0 - self.ne0, i1, i2, i3)
                } else if dim == 1 && i1 >= self.ne1 {
                    (other.at)(i0, i1 - self.ne1, i2, i3)
                } else if dim == 2 && i2 >= self.ne2 {
                    (other.at)(i0, i1, i2 - self.ne2, i3)
                } else if dim == 3 && i3 >= self.ne3 {
                    (other.at)(i0, i1, i2, i3 - self.ne3)
                } else {
                    (self.at)(i0, i1, i2, i3)
                },
        }
    }

    /// The first two axes exchanged.
    pub open spec fn transposed(self) -> TensorValue {
        TensorValue {
            ne0: self.ne1,
            ne1: self.ne0,
            dense: false,
            at: |i0: int, i1: int, i2: int, i3: int| (self.at)(i1, i0, i2, i3),
            ..self
        }
    }

    /// The second and third axes exchanged.
    pub open spec fn planes_to_rows(self) -> TensorValue {
        TensorValue {
            ne1: self.ne2,
            ne2: self.ne1,
            dense: false,
            at: |i0: int, i1: int, i2: int, i3: int| (self.at)(i0, i2, i1, i3),
            ..self
        }
    }

    /// The element at a position that padding may move outside the tensor.
    pub open spec fn padded(self, i0: int, i1: int, i2: int, i3: int) -> Scalar {
        if 0 <= i0 < self.ne0 && 0 <= i1 < self.ne1 {
            (self.at)(i0, i1, i2, i3)
        } else {
            Scalar::Zero
        }
    }

    /// Convolution of `input` (`[width, height, channels, batch]`) with the
    /// kernel `self` (`[width, height, input channels, output channels]`).
    pub open spec fn conv_2d(self, input: TensorValue, p: ConvParams) -> TensorValue {
        TensorValue {
            ne0: conv_axis(input.ne0, self.ne0, p.stride_w as int, p.pad_w as int, p.dilation_w as int),
            ne1: conv_axis(input.ne1, self.ne1, p.stride_h as int, p.pad_h as int, p.dilation_h as int),
            ne2: self.ne3,
            ne3: input.ne3,
            dense: true,
            at: |ow: int, oh: int, oc: int, n: int|
                Scalar::Dot(
                    Seq::new(
                        (self.ne0 * self.ne1 * self.ne2) as nat,
                        |k: int|
                            (self.at)(
                                k % self.ne0,
                                (k / self.ne0) % self.ne1,
                                k / (self.ne0 * self.ne1),
                                oc,
                            ),
                    ),
                    Seq::new(
                        (self.ne0 * self.ne1 * self.ne2) as nat,
                        |k: int|
                            input.padded(
                                ow * p.stride_w + (k % self.ne0) * p.dilation_w - p.pad_w,
                                oh * p.stride_h + ((k / self.ne0) % self.ne1) * p.dilation_h - p.pad_h,
                                k / (self.ne0 * self.ne1),
                                n,
                            ),
                    ),
                ),
        }
    }

    /// Convolution that keeps channels apart: kernel `self` is
    /// `[width, height, 1, channels]`.
    pub open spec fn depthwise_conv_2d(self, input: TensorValue, p: ConvParams) -> TensorValue {
        TensorValue {
            ne0: conv_axis(input.ne0, self.ne0, p.stride_w as int, p.pad_w as int, p.dilation_w as int),
            ne1: conv_axis(input.ne1, self.ne1, p.stride_h as int, p.pad_h as int, p.dilation_h as int),
            ne2: input.ne2,
            ne3: input.ne3,
            dense: true,
            at: |ow: int, oh: int, c: int, n: int|
                Scalar::Dot(
                    Seq::new(
                        (self.ne0 * self.ne1) as nat,
                        |k: int| (self.at)(k % self.ne0, k / self.ne0, 0, c),
                    ),
                    Seq::new(
                        (self.ne0 * self.ne1) as nat,
                        |k: int|
                            input.padded(
                                ow * p.stride_w + (k % self.ne0) * p.dilation_w - p.pad_w,
                                oh * p.stride_h + (k / self.ne0) * p.dilation_h - p.pad_h,
                                c,
                                n,
                            ),
                    ),
                ),
        }
    }

    /// The rows of the table `self` that the integer vector `rows` selects.
    pub open spec fn gathered(self, rows: TensorValue) -> TensorValue {
        TensorValue {
            ne0: self.ne0,
            ne1: rows.ne0,
            ne2: 1,
            ne3: 1,
            dense: true,
            at: |i0: int, i1: int, i2: int, i3: int|
                Scalar::Gathered {
                    table: Seq::new(self.ne1 as nat, |j: int| (self.at)(i0, j, 0, 0)),
                    selector: Box::new((rows.at)(i1, 0, 0, 0)),
                },
        }
    }

    /// The position of the largest entry of each row.
    pub open spec fn arg_max_rows(self) -> TensorValue {
        TensorValue {
            ne0: self.ne1,
            ne1: 1,
            ne2: 1,
            ne3: 1,
            dense: true,
            at: |i0: int, i1: int, i2: int, i3: int| Scalar::ArgMax(self.row(i0, 0, 0)),
        }
    }

    /// The elements of `self` under the dimensions of the tensor they are
    /// written into.
    pub open spec fn copied_into(self, target: TensorValue) -> TensorValue {
        self.reshaped(target.ne0, target.ne1, target.ne2, target.ne3)
    }
}

} // verus!
